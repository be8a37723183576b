//! Laws of the requests about the node and the cluster.

use crate::rpc::action::{Action, Read, ReadRequest, UpstreamCall};
use crate::rpc::cluster::{
    ReadResultBlockhashValid, ReadResultLatestBlockhash, RpcLeaderScheduleConfig,
    RpcLeaderScheduleConfigWrapper, RpcRecentPrioritizationFeesConfig, RpcRequestClusterNodes,
    RpcRequestFirstAvailableBlock, RpcRequestHealth, RpcRequestIsBlockhashValid,
    RpcRequestLatestBlockhash, RpcRequestLeaderSchedule, RpcRequestRecentPrioritizationFees,
    RpcRequestSlot, RpcRequestVersion,
};
use crate::rpc::jsonrpc::{
    self, InvalidParams, JsonTextView, Payload, Reply, RpcCustomError, RpcPrioritizationFee,
    UnexpectedParams,
};
use crate::rpc::keys;
use crate::rpc::laws::signatures::malformed;
use crate::rpc::laws::{
    context_behind, first_node, given, given_commitment, lemma_node, newest, no_node,
};
use crate::rpc::params::RpcContextConfig;
use crate::rpc::state::{Commitment, ConfigRpcCallJson, State, StoredSlots};
use vstd::prelude::*;

verus! {

// ------------------------------------------------------- parameters where there should be none

/// Whether parameters stand for none: there are none, or null, or an empty
/// array.
pub open spec fn means_none(params: Option<&str>) -> bool {
    params is Some ==> {
        let json = jsonrpc::json_of(params->0@);
        json is Null || (json matches JsonTextView::Array(len, _) && len == 0)
    }
}

/// Whether a reply refuses parameters: it gives them back, or tells what is
/// wrong with them where they are not JSON.
pub open spec fn refuses(params: Option<&str>, reply: Reply) -> bool {
    let json = jsonrpc::json_of(params->0@);
    &&& reply matches Reply::UnexpectedParams(refusal)
    &&& json matches JsonTextView::Array(_, text) ==> (refusal matches UnexpectedParams::Present(
        given,
    ) && given@ == text)
    &&& json matches JsonTextView::Other(text) ==> (refusal matches UnexpectedParams::Present(given)
        && given@ == text)
    &&& json matches JsonTextView::Malformed(text) ==> (
    refusal matches UnexpectedParams::Malformed(given) && given@ == text)
}

/// Parameters are refused exactly where there are some.
pub proof fn law_no_parameters_are_expected(params: Option<&str>, r: Result<(), Reply>)
    requires
        call_ensures(jsonrpc::no_params_expected, (params,), r),
    ensures
        r is Ok <==> means_none(params),
        r matches Err(reply) ==> refuses(params, reply),
{
}

// ------------------------------------------------------- getClusterNodes, getFirstAvailableBlock

/// The nodes of the cluster are asked of the first node that may be asked.
pub proof fn law_cluster_nodes_are_asked_for(
    params: Option<&str>,
    r: Result<RpcRequestClusterNodes, Reply>,
    request: RpcRequestClusterNodes,
    state: State,
    action: Action,
)
    requires
        call_ensures(RpcRequestClusterNodes::parse, (params,), r),
        !no_node(state, ConfigRpcCallJson::GetClusterNodes),
        call_ensures(RpcRequestClusterNodes::start, (&request, &state), action),
    ensures
        r is Ok <==> means_none(params),
        r matches Err(reply) ==> refuses(params, reply),
        action matches Action::Upstream { index, call, reason } && first_node(
            state,
            ConfigRpcCallJson::GetClusterNodes,
            index,
        ) && call is ClusterNodes && reason is Always,
{
    lemma_node(state, ConfigRpcCallJson::GetClusterNodes);
}

/// The first available block is asked of another node, where the client allows
/// it and there is one; otherwise it is the first one that is stored.
pub proof fn law_first_available_block_is_the_first(
    upstream_disabled: bool,
    params: Option<&str>,
    r: Result<RpcRequestFirstAvailableBlock, Reply>,
    request: RpcRequestFirstAvailableBlock,
    state: State,
    slots: StoredSlots,
    action: Action,
)
    requires
        call_ensures(RpcRequestFirstAvailableBlock::parse, (upstream_disabled, params), r),
        r matches Ok(accepted) ==> accepted == request,
        call_ensures(RpcRequestFirstAvailableBlock::start, (&request, &state, &slots), action),
    ensures
        r is Ok <==> means_none(params),
        r matches Err(reply) ==> refuses(params, reply),
        r is Ok ==> {
            let elsewhere = !upstream_disabled && !no_node(
                state,
                ConfigRpcCallJson::GetFirstAvailableBlock,
            );
            &&& elsewhere ==> (action matches Action::Upstream { index, call, reason }
                && first_node(state, ConfigRpcCallJson::GetFirstAvailableBlock, index)
                && call is FirstAvailableBlock && reason is Always)
            &&& !elsewhere ==> action == Action::Reply(
                Reply::Success(Payload::Number(slots.first_available)),
            )
        },
{
    lemma_node(state, ConfigRpcCallJson::GetFirstAvailableBlock);
}

// ------------------------------------------------------- getHealth

/// A node is healthy exactly where it is not switched off and no further
/// behind the cluster than allowed, as far as the slot of the cluster is
/// known. Otherwise it tells how far it is behind.
pub proof fn law_health_is_told(
    state: State,
    slots: StoredSlots,
    health_disabled: bool,
    cluster_slot: u64,
    params: Option<&str>,
    reply: Reply,
)
    requires
        call_ensures(
            RpcRequestHealth::parse,
            (&state, &slots, health_disabled, cluster_slot, params),
            reply,
        ),
    ensures
        ({
            let healthy = cluster_slot == 0 || cluster_slot <= slots.processed
                + state.health_check_slot_distance;
            &&& !means_none(params) ==> refuses(params, reply)
            &&& means_none(params) && health_disabled ==> reply == Reply::Custom(
                RpcCustomError::NodeUnhealthy { num_slots_behind: None },
            )
            &&& means_none(params) && !health_disabled && healthy ==> (reply matches Reply::Success(
                Payload::Text(text),
            ) && text@ == "ok"@)
            &&& means_none(params) && !health_disabled && !healthy ==> (reply matches Reply::Custom(
                RpcCustomError::NodeUnhealthy { num_slots_behind: Some(n) },
            ) && slots.processed + n == cluster_slot)
        }),
{
}

// ------------------------------------------------------- getLatestBlockhash, getSlot

/// The newest block hash is asked for with the commitment that the client
/// gives, and replied as the storage has it. The request is refused exactly
/// where this node has not reached the slot that the client asks for.
pub proof fn law_latest_blockhash_is_that_of_the_storage(
    slots: StoredSlots,
    config: Option<RpcContextConfig>,
    read: Read<ReadResultLatestBlockhash>,
    r: Result<RpcRequestLatestBlockhash, Reply>,
    request: RpcRequestLatestBlockhash,
    first: Action,
    next: Action,
)
    requires
        call_ensures(RpcRequestLatestBlockhash::parse, (&slots, config), r),
        r matches Ok(accepted) ==> accepted == request,
        call_ensures(RpcRequestLatestBlockhash::start, (&request,), first),
        call_ensures(RpcRequestLatestBlockhash::on_read, (&request, read), next),
    ensures
        r is Err <==> context_behind(config, slots),
        r matches Err(reply) ==> reply == Reply::Custom(
            RpcCustomError::MinContextSlotNotReached {
                context_slot: newest(slots, given_commitment(config)),
            },
        ),
        r is Ok ==> first == Action::Read(
            ReadRequest::LatestBlockhash { commitment: given_commitment(config) },
        ),
        read matches Read::Value(latest) ==> {
            &&& next matches Action::Reply(
                Reply::Success(Payload::Blockhash { slot, blockhash, last_valid_block_height }),
            )
            &&& slot == latest.slot
            &&& blockhash == latest.blockhash
            &&& last_valid_block_height == latest.last_valid_block_height
        },
        !(read is Value) ==> next is Fail,
{
}

/// The slot is the newest one with the commitment that the client gives. The
/// request is refused exactly where this node has not reached the slot that
/// the client asks for.
pub proof fn law_slot_is_the_newest(
    slots: StoredSlots,
    config: Option<RpcContextConfig>,
    reply: Reply,
)
    requires
        call_ensures(RpcRequestSlot::parse, (&slots, config), reply),
    ensures
        context_behind(config, slots) ==> reply == Reply::Custom(
            RpcCustomError::MinContextSlotNotReached {
                context_slot: newest(slots, given_commitment(config)),
            },
        ),
        !context_behind(config, slots) ==> reply == Reply::Success(
            Payload::Number(newest(slots, given_commitment(config))),
        ),
{
}

// ------------------------------------------------------- getLeaderSchedule

/// The leader schedule is asked of the first node that may be asked, for the
/// slot that the client gives and the epoch of that slot, or for the newest
/// slot with its commitment. The schedule of a slot that is not known yet is
/// null, and a malformed identity is refused.
pub proof fn law_leader_schedule_is_that_of_the_slot(
    slots: StoredSlots,
    slot: Option<u64>,
    config: RpcLeaderScheduleConfig,
    r: Result<RpcRequestLeaderSchedule, Reply>,
    request: RpcRequestLeaderSchedule,
    state: State,
    action: Action,
)
    requires
        call_ensures(
            RpcRequestLeaderSchedule::parse,
            (&slots, Some(RpcLeaderScheduleConfigWrapper::SlotOnly(slot)), Some(config)),
            r,
        ),
        r matches Ok(accepted) ==> accepted == request,
        !no_node(state, ConfigRpcCallJson::GetLeaderSchedule),
        call_ensures(RpcRequestLeaderSchedule::start, (request, &state), action),
    ensures
        ({
            let identity_read = config.identity is Some ==> keys::pubkey_of(
                config.identity->0@,
            ) is Ok;
            let known = slot is Some ==> slot->0 <= slots.processed;
            let commitment = given(config.commitment, Commitment::Finalized);
            &&& r is Ok <==> identity_read && known
            &&& !identity_read ==> r->Err_0 == malformed(
                keys::pubkey_of(config.identity->0@)->Err_0,
            )
            &&& identity_read && !known ==> r->Err_0 == Reply::Success(Payload::Null)
            &&& r is Ok ==> {
                &&& action matches Action::Upstream { index, call, reason }
                &&& first_node(state, ConfigRpcCallJson::GetLeaderSchedule, index)
                &&& reason is Always
                &&& call matches UpstreamCall::LeaderSchedule {
                    epoch,
                    slot: asked,
                    is_processed,
                    identity,
                }
                &&& identity == config.identity
                &&& epoch == asked / 432_000
                &&& slot is Some ==> asked == slot->0
                &&& slot is Some ==> (is_processed <==> slots.confirmed < asked)
                &&& slot is None ==> asked == newest(slots, commitment)
                &&& slot is None ==> (is_processed <==> commitment is Processed)
            }
        }),
{
    lemma_node(state, ConfigRpcCallJson::GetLeaderSchedule);
}

/// Options in place of a slot mean the same as options behind no slot, and
/// count before those. No options mean the same as options that say nothing.
pub proof fn law_leader_schedule_options_in_either_place(
    slots: StoredSlots,
    config: RpcLeaderScheduleConfig,
    other: Option<RpcLeaderScheduleConfig>,
    in_place: Result<RpcRequestLeaderSchedule, Reply>,
    behind: Result<RpcRequestLeaderSchedule, Reply>,
    without: Result<RpcRequestLeaderSchedule, Reply>,
    bare: Result<RpcRequestLeaderSchedule, Reply>,
)
    requires
        call_ensures(RpcRequestLeaderSchedule::parse, (&slots, None, None), bare),
        call_ensures(
            RpcRequestLeaderSchedule::parse,
            (&slots, Some(RpcLeaderScheduleConfigWrapper::ConfigOnly(Some(config))), other),
            in_place,
        ),
        call_ensures(
            RpcRequestLeaderSchedule::parse,
            (&slots, Some(RpcLeaderScheduleConfigWrapper::SlotOnly(None)), Some(config)),
            behind,
        ),
        call_ensures(RpcRequestLeaderSchedule::parse, (&slots, None, Some(config)), without),
    ensures
        in_place == behind,
        without == behind,
        config.identity is None && config.commitment is None ==> bare == behind,
{
}

// ------------------------------------------------------- getRecentPrioritizationFees

/// Fees are asked for the addresses that the client gives, in their order, and
/// for its percentile where percentiles are allowed. A request is refused
/// exactly where there are too many addresses, one is malformed, or the
/// percentile is too big. Fees are replied as the storage has them.
pub proof fn law_fees_are_those_asked_for(
    state: State,
    texts: Vec<String>,
    config: Option<RpcRecentPrioritizationFeesConfig>,
    r: Result<RpcRequestRecentPrioritizationFees, Reply>,
    request: RpcRequestRecentPrioritizationFees,
    first: Action,
    read: Read<Vec<RpcPrioritizationFee>>,
    next: Action,
)
    requires
        call_ensures(RpcRequestRecentPrioritizationFees::parse, (&state, &texts, config), r),
        r matches Ok(accepted) ==> accepted == request,
        call_ensures(RpcRequestRecentPrioritizationFees::start, (request,), first),
        call_ensures(RpcRequestRecentPrioritizationFees::on_read, (read,), next),
    ensures
        ({
            let all_read = forall|i: int|
                0 <= i < texts@.len() ==> keys::pubkey_of((#[trigger] texts@[i])@) is Ok;
            let asked = if config is Some && state.grpf_percentile {
                config->0.percentile
            } else {
                None
            };
            let too_big = asked is Some && asked->0 > 10_000;
            &&& r is Ok <==> texts@.len() <= 128 && all_read && !too_big
            &&& texts@.len() > 128 ==> r->Err_0 == Reply::InvalidParams(
                InvalidParams::TooManyInputs { max: 128 },
            )
            &&& texts@.len() <= 128 && !all_read ==> exists|i: int|
                0 <= i < texts@.len() && keys::pubkey_of((#[trigger] texts@[i])@) is Err && r->Err_0
                    == malformed(keys::pubkey_of(texts@[i]@)->Err_0)
            &&& texts@.len() <= 128 && all_read && too_big ==> r->Err_0 == Reply::InvalidParams(
                InvalidParams::PercentileTooBig,
            )
            &&& r is Ok ==> {
                &&& first matches Action::Read(
                    ReadRequest::RecentPrioritizationFees { pubkeys, percentile },
                )
                &&& percentile == asked
                &&& pubkeys@.len() == texts@.len()
                &&& forall|i: int|
                    0 <= i < texts@.len() ==> keys::pubkey_of((#[trigger] texts@[i])@)->Ok_0
                        == pubkeys@[i]
            }
            &&& read matches Read::Value(fees) ==> next == Action::Reply(
                Reply::Success(Payload::Fees(fees)),
            )
            &&& !(read is Value) ==> next is Fail
        }),
{
    keys::law_pubkeys_are_read_one_by_one(texts@);
}

// ------------------------------------------------------- getVersion, isBlockhashValid

/// The version is that of the software, in a request that should have no
/// parameters.
pub proof fn law_version_is_that_of_the_software(params: Option<&str>, reply: Reply)
    requires
        call_ensures(RpcRequestVersion::parse, (params,), reply),
    ensures
        means_none(params) ==> (reply matches Reply::Success(Payload::Version { solana_core, .. })
            && solana_core@ == "4.0.0"@),
        !means_none(params) ==> refuses(params, reply),
{
}

/// The validity of the block hash that the client gives is asked for with its
/// commitment, and replied as the storage has it. The request is refused where
/// this node has not reached the slot that the client asks for, and where the
/// hash is malformed.
pub proof fn law_validity_is_that_of_the_hash(
    slots: StoredSlots,
    blockhash: String,
    config: Option<RpcContextConfig>,
    r: Result<RpcRequestIsBlockhashValid, Reply>,
    request: RpcRequestIsBlockhashValid,
    first: Action,
    read: Read<ReadResultBlockhashValid>,
    next: Action,
)
    requires
        call_ensures(RpcRequestIsBlockhashValid::parse, (&slots, blockhash, config), r),
        r matches Ok(accepted) ==> accepted == request,
        call_ensures(RpcRequestIsBlockhashValid::start, (request,), first),
        call_ensures(RpcRequestIsBlockhashValid::on_read, (read,), next),
    ensures
        ({
            let reached = !context_behind(config, slots);
            let hash = keys::hash_of(blockhash@);
            &&& r is Ok <==> reached && hash is Ok
            &&& !reached ==> r->Err_0 == Reply::Custom(
                RpcCustomError::MinContextSlotNotReached {
                    context_slot: newest(slots, given_commitment(config)),
                },
            )
            &&& reached && hash is Err ==> r->Err_0 == Reply::InvalidParams(
                InvalidParams::InvalidBlockhash(hash->Err_0),
            )
            &&& r is Ok ==> (first matches Action::Read(
                ReadRequest::BlockhashValid { blockhash: asked, commitment },
            ) && asked == blockhash && commitment == given_commitment(config))
            &&& read matches Read::Value(found) ==> (next matches Action::Reply(
                Reply::Success(Payload::BlockhashValid { slot, is_valid }),
            ) && slot == found.slot && is_valid == found.is_valid)
            &&& !(read is Value) ==> next is Fail
        }),
{
}

} // verus!
