//! What a client can rely on: laws of whole operations, from the parameters of
//! a request to what it is answered. They speak of what the functions return
//! for given arguments, whatever goes on inside.

pub mod block;
pub mod cluster;
pub mod gtfa;
pub mod inflation;
pub mod setup;
pub mod signatures;
pub mod transaction;

use crate::rpc::action::{self, Failure, Read};
use crate::rpc::params::RpcContextConfig;
use crate::rpc::state::{Commitment, ConfigRpcCallJson, State, StoredSlots};
use vstd::prelude::*;

verus! {

/// What a client gives, or what stands in its place.
pub open spec fn given<T>(option: Option<T>, otherwise: T) -> T {
    if option is Some {
        option->0
    } else {
        otherwise
    }
}

/// The newest slot that this node knows with a commitment.
pub open spec fn newest(slots: StoredSlots, commitment: Commitment) -> u64 {
    if commitment is Processed {
        slots.processed
    } else if commitment is Confirmed {
        slots.confirmed
    } else {
        slots.finalized
    }
}

/// The commitment that a client gives.
pub open spec fn given_commitment(config: Option<RpcContextConfig>) -> Commitment {
    if config is Some {
        given(config->0.commitment, Commitment::Finalized)
    } else {
        Commitment::Finalized
    }
}

/// Whether a client asks for a slot that this node has not reached.
pub open spec fn behind(min_context_slot: Option<u64>, commitment: Commitment, slots: StoredSlots) -> bool {
    min_context_slot is Some && newest(slots, commitment) < min_context_slot->0
}

/// Whether a client asks for a slot that this node has not reached.
pub open spec fn context_behind(config: Option<RpcContextConfig>, slots: StoredSlots) -> bool {
    config is Some && behind(config->0.min_context_slot, given_commitment(config), slots)
}

/// Whether `index` is the first node that may be asked a method.
pub open spec fn first_node(state: State, call: ConfigRpcCallJson, index: usize) -> bool {
    &&& index < state.upstreams@.len()
    &&& state.upstreams@[index as int].calls@.contains(call)
    &&& forall|j: int| 0 <= j < index ==> !(#[trigger] state.upstreams@[j]).calls@.contains(call)
}

/// Whether no node may be asked a method.
pub open spec fn no_node(state: State, call: ConfigRpcCallJson) -> bool {
    forall|j: int|
        0 <= j < state.upstreams@.len() ==> !(#[trigger] state.upstreams@[j]).calls@.contains(call)
}

/// An answer of the storage is taken as it is, and each way in which there is
/// none is a failure of its own.
pub proof fn law_answers_are_taken_as_they_are<T>(read: Read<T>, r: Result<T, Failure>)
    requires
        call_ensures(action::received::<T>, (read,), r),
    ensures
        r is Ok <==> read is Value,
        r matches Ok(value) ==> read == Read::Value(value),
        read is NotSent ==> r->Err_0 is RequestChannelClosed,
        read is Lost ==> r->Err_0 is ReplyChannelClosed,
        read is Timeout ==> r->Err_0 is Timeout,
        read matches Read::ReadError(error) ==> r->Err_0 == Failure::ReadError(error),
{
}

/// The node that is asked a method is the first one that may be, and there is
/// none only where no node may be asked.
pub proof fn law_first_node_is_asked(state: State, call: ConfigRpcCallJson, r: Option<usize>)
    requires
        call_ensures(State::get_upstream, (&state, call), r),
    ensures
        r matches Some(index) ==> first_node(state, call, index),
        r is None ==> no_node(state, call),
{
    assert(state.upstreams.len() <= usize::MAX);
    crate::rpc::state::law_first_supporting(state.upstreams@, call, 0);
}

/// The node that a request finds, or that there is none.
pub(crate) proof fn lemma_node(state: State, call: ConfigRpcCallJson)
    ensures
        state.upstream(call) matches Some(index) ==> first_node(state, call, index),
        state.upstream(call) is None ==> no_node(state, call),
        state.upstream(call) is Some ==> !no_node(state, call),
{
    assert(state.upstreams.len() <= usize::MAX);
    crate::rpc::state::law_first_supporting(state.upstreams@, call, 0);
    if let Some(index) = state.upstream(call) {
        assert(state.upstreams@[index as int].supports(call));
    }
}

} // verus!
