//! Laws of `getSignaturesForAddress` and `getSignatureStatuses`.

use crate::rpc::action::{Action, Failure, ReadRequest, Reason, UpstreamCall};
use crate::rpc::jsonrpc::{InvalidParams, Payload, Reply, RpcCustomError};
use crate::rpc::keys::{self, ParseError, Signature};
use crate::rpc::laws::{behind, first_node, given, lemma_node, newest, no_node};
use crate::rpc::records::{self, SignatureRecord, UpstreamReply};
use crate::rpc::signatures::{
    self, ReadResultSignaturesForAddress, RpcRequestSignatureStatuses,
    RpcRequestSignaturesForAddress, RpcSignaturesForAddressConfig,
};
use crate::rpc::state::{Commitment, ConfigRpcCallJson, State, StoredSlots};
use vstd::prelude::*;

verus! {

// ------------------------------------------------------- getSignaturesForAddress

/// Whether a text that a client may give is a signature, where it is given.
pub open spec fn readable(text: Option<String>) -> bool {
    text is Some ==> keys::signature_of(text->0@) is Ok
}

/// Whether `signature` is what a text stands for that a client may give.
pub open spec fn reads_as(text: Option<String>, signature: Option<Signature>) -> bool {
    if text is Some {
        keys::signature_of(text->0@) is Ok && signature == Some(
            keys::signature_of(text->0@)->Ok_0,
        )
    } else {
        signature is None
    }
}

/// The refusal of an address or a signature that is malformed.
pub open spec fn malformed(error: ParseError) -> Reply {
    Reply::InvalidParams(InvalidParams::InvalidParam(error))
}

/// A request for the signatures of an address is accepted exactly where the
/// address and the signatures can be read, the limit is allowed, at least
/// confirmed signatures are asked for, and this node has reached the slot that
/// the client asks for. It then keeps everything that the client gives.
pub proof fn law_signatures_request_keeps_what_is_given(
    state: State,
    slots: StoredSlots,
    upstream_disabled: bool,
    address: &str,
    config: RpcSignaturesForAddressConfig,
    r: Result<RpcRequestSignaturesForAddress, Reply>,
)
    requires
        call_ensures(
            RpcRequestSignaturesForAddress::parse,
            (&state, &slots, upstream_disabled, address, &config),
            r,
        ),
    ensures
        ({
            let limit = given(config.limit, state.gsfa_limit);
            let commitment = given(config.commitment, Commitment::Finalized);
            let texts_read = keys::pubkey_of(address@) is Ok && readable(config.before) && readable(
                config.until,
            );
            let limit_allowed = 0 < limit <= state.gsfa_limit;
            &&& r is Ok <==> texts_read && limit_allowed && !(commitment is Processed) && !behind(
                config.min_context_slot,
                commitment,
                slots,
            )
            &&& r matches Ok(request) ==> {
                &&& request.upstream_disabled == upstream_disabled
                &&& keys::pubkey_of(address@)->Ok_0 == request.address
                &&& reads_as(config.before, request.before)
                &&& reads_as(config.until, request.until)
                &&& request.limit == limit
                &&& request.commitment == commitment
            }
            &&& keys::pubkey_of(address@) matches Err(error) ==> r->Err_0 == malformed(error)
            &&& keys::pubkey_of(address@) is Ok && !readable(config.before) ==> r->Err_0
                == malformed(keys::signature_of(config.before->0@)->Err_0)
            &&& keys::pubkey_of(address@) is Ok && readable(config.before) && !readable(
                config.until,
            ) ==> r->Err_0 == malformed(keys::signature_of(config.until->0@)->Err_0)
            &&& texts_read && !limit_allowed ==> r->Err_0 == Reply::InvalidParams(
                InvalidParams::InvalidLimit { max: state.gsfa_limit },
            )
            &&& texts_read && limit_allowed && commitment is Processed ==> r->Err_0
                == Reply::InvalidParams(InvalidParams::CommitmentBelowConfirmed)
            &&& texts_read && limit_allowed && !(commitment is Processed) && behind(
                config.min_context_slot,
                commitment,
                slots,
            ) ==> r->Err_0 == Reply::Custom(
                RpcCustomError::MinContextSlotNotReached {
                    context_slot: newest(slots, commitment),
                },
            )
        }),
{
}

/// The storage is asked for what the client gives.
pub proof fn law_signatures_are_asked_of_the_storage_as_given(
    state: State,
    slots: StoredSlots,
    upstream_disabled: bool,
    address: &str,
    config: RpcSignaturesForAddressConfig,
    request: RpcRequestSignaturesForAddress,
    action: Action,
)
    requires
        call_ensures(
            RpcRequestSignaturesForAddress::parse,
            (&state, &slots, upstream_disabled, address, &config),
            Ok(request),
        ),
        call_ensures(RpcRequestSignaturesForAddress::start, (&request,), action),
    ensures
        action matches Action::Read(
            ReadRequest::SignaturesForAddress { commitment, address: asked, before, until, limit },
        ) && commitment == given(config.commitment, Commitment::Finalized)
            && keys::pubkey_of(address@)->Ok_0 == asked && reads_as(config.before, before)
            && reads_as(config.until, until) && limit == given(config.limit, state.gsfa_limit),
{
}

/// Whether another node is asked for what the storage lacks: the storage may
/// not have all, there is room for more, the client allows it, and there is a
/// node that may be asked.
pub open spec fn more_elsewhere(
    upstream_disabled: bool,
    limit: usize,
    state: State,
    read: ReadResultSignaturesForAddress,
) -> bool {
    &&& !read.finished
    &&& read.signatures@.len() < limit
    &&& !upstream_disabled
    &&& !no_node(state, ConfigRpcCallJson::GetSignaturesForAddress)
}

/// Another node is asked for what the client gives, as far as the storage did
/// not have it: as many signatures as are lacking, behind the last one that
/// the storage has, and until where the client says. Where no other node is
/// asked, the reply is what the storage has, in its order.
pub proof fn law_lacking_signatures_are_asked_for_as_given(
    state: State,
    slots: StoredSlots,
    upstream_disabled: bool,
    address: &str,
    config: RpcSignaturesForAddressConfig,
    request: RpcRequestSignaturesForAddress,
    read: ReadResultSignaturesForAddress,
    r: Option<Action>,
)
    requires
        call_ensures(
            RpcRequestSignaturesForAddress::parse,
            (&state, &slots, upstream_disabled, address, &config),
            Ok(request),
        ),
        read.signatures@.len() <= request.limit,
        call_ensures(RpcRequestSignaturesForAddress::on_storage, (&request, &state, &read), r),
    ensures
        ({
            let more = more_elsewhere(
                upstream_disabled,
                given(config.limit, state.gsfa_limit),
                state,
                read,
            );
            let last = keys::signature_of(read.signatures@.last().signature@);
            &&& r is None <==> more && read.signatures@.len() > 0 && last is Err
            &&& r matches Some(action) ==> (action is Upstream <==> more)
            &&& r matches Some(Action::Upstream { index, call, reason }) ==> {
                &&& first_node(state, ConfigRpcCallJson::GetSignaturesForAddress, index)
                &&& reason == Reason::IncompleteResults
                &&& call matches UpstreamCall::SignaturesForAddress {
                    address: asked,
                    before,
                    until,
                    limit,
                    commitment,
                }
                &&& keys::pubkey_of(address@)->Ok_0 == asked
                &&& reads_as(config.until, until)
                &&& commitment == given(config.commitment, Commitment::Finalized)
                &&& limit + read.signatures@.len() == given(config.limit, state.gsfa_limit)
                &&& read.signatures@.len() == 0 ==> before == read.before
                &&& read.signatures@.len() > 0 ==> before == Some(last->Ok_0)
            }
            &&& r is Some && !more ==> replies_with(r->0, read.signatures@, Seq::empty())
        }),
{
    lemma_node(state, ConfigRpcCallJson::GetSignaturesForAddress);
    if let Some(Action::Reply(Reply::Success(Payload::Signatures(list)))) = r {
        assert(crate::rpc::jsonrpc::texts(list@).len() == list@.len());
        assert forall|i: int| 0 <= i < list@.len() implies (#[trigger] list@[i])@
            == read.signatures@[i].json@ by {
            assert(crate::rpc::jsonrpc::texts(list@)[i] == list@[i]@);
        }
    }
}

/// The same holds of a request whose last signature was read before.
pub proof fn law_lacking_signatures_go_on_behind_the_last(
    request: RpcRequestSignaturesForAddress,
    state: State,
    read: ReadResultSignaturesForAddress,
    last: Option<Signature>,
    action: Action,
)
    requires
        read.signatures@.len() <= request.limit,
        call_ensures(RpcRequestSignaturesForAddress::on_read, (&request, &state, &read, last), action),
    ensures
        action is Upstream <==> more_elsewhere(request.upstream_disabled, request.limit, state, read),
        action matches Action::Upstream { call, .. } ==> {
            &&& call matches UpstreamCall::SignaturesForAddress {
                address,
                before,
                until,
                limit,
                commitment,
            }
            &&& address == request.address
            &&& until == request.until
            &&& commitment == request.commitment
            &&& limit + read.signatures@.len() == request.limit
            &&& before == if read.signatures@.len() > 0 {
                last
            } else {
                read.before
            }
        },
{
    lemma_node(state, ConfigRpcCallJson::GetSignaturesForAddress);
}

/// Whether a reply lists the records of the storage, and then those of another
/// node, each as its JSON text.
pub open spec fn replies_with(
    action: Action,
    local: Seq<SignatureRecord>,
    more: Seq<records::SignatureRecordView>,
) -> bool {
    &&& action matches Action::Reply(Reply::Success(Payload::Signatures(list)))
    &&& list@.len() == local.len() + more.len()
    &&& forall|i: int| 0 <= i < local.len() ==> (#[trigger] list@[i])@ == local[i].json@
    &&& forall|i: int|
        local.len() <= i < list@.len() ==> (#[trigger] list@[i])@ == more[i - local.len()].json
}

/// What another node answers comes behind what the storage has; its error is
/// handed on as it is.
pub proof fn law_signatures_of_another_node_come_behind(
    local: Vec<SignatureRecord>,
    answer: Result<Vec<u8>, String>,
    action: Action,
)
    requires
        call_ensures(RpcRequestSignaturesForAddress::on_upstream, (&local, answer), action),
    ensures
        answer matches Err(error) ==> action == Action::Fail(Failure::Upstream(error)),
        answer matches Ok(bytes) ==> {
            let reply = records::signatures_reply_of(bytes@);
            &&& reply is Malformed ==> action == Action::Fail(Failure::UpstreamMalformed)
            &&& reply is Error ==> action == Action::Reply(Reply::Forward(bytes))
            &&& reply matches UpstreamReply::Success(more) ==> replies_with(action, local@, more)
        },
{
    if let (Ok(bytes), Action::Reply(Reply::Success(Payload::Signatures(list)))) = (answer, action) {
        if let UpstreamReply::Success(more) = records::signatures_reply_of(bytes@) {
            assert(crate::rpc::jsonrpc::texts(list@).len() == list@.len());
            assert forall|i: int| 0 <= i < local@.len() implies (#[trigger] list@[i])@
                == local@[i].json@ by {
                assert(crate::rpc::jsonrpc::texts(list@)[i] == list@[i]@);
            }
            assert forall|i: int| local@.len() <= i < list@.len() implies (#[trigger] list@[i])@
                == more[i - local@.len()].json by {
                assert(crate::rpc::jsonrpc::texts(list@)[i] == list@[i]@);
            }
        }
    }
}

// ------------------------------------------------------- getSignatureStatuses

/// A request for statuses is accepted exactly where there are not too many
/// signatures, all of them can be read, and the history is searched only where
/// that is allowed. It then asks the storage for the signatures that the
/// client gives, in their order.
pub proof fn law_statuses_request_keeps_what_is_given(
    state: State,
    upstream_disabled: bool,
    texts: Vec<String>,
    search: Option<bool>,
    r: Result<RpcRequestSignatureStatuses, Reply>,
    request: RpcRequestSignatureStatuses,
    action: Action,
)
    requires
        call_ensures(
            RpcRequestSignatureStatuses::parse,
            (&state, upstream_disabled, &texts, search),
            r,
        ),
        r matches Ok(accepted) ==> accepted == request,
        call_ensures(RpcRequestSignatureStatuses::start, (&request,), action),
    ensures
        ({
            let all_read = forall|i: int|
                0 <= i < texts@.len() ==> keys::signature_of((#[trigger] texts@[i])@) is Ok;
            let history = search == Some(true);
            &&& r is Ok <==> texts@.len() <= 256 && all_read && (history
                ==> state.gss_transaction_history)
            &&& texts@.len() > 256 ==> r->Err_0 == Reply::InvalidParams(
                InvalidParams::TooManyInputs { max: 256 },
            )
            &&& texts@.len() <= 256 && !all_read ==> exists|i: int|
                0 <= i < texts@.len() && keys::signature_of((#[trigger] texts@[i])@) is Err
                    && r->Err_0 == malformed(keys::signature_of(texts@[i]@)->Err_0)
                    && forall|j: int|
                    0 <= j < i ==> keys::signature_of((#[trigger] texts@[j])@) is Ok
            &&& texts@.len() <= 256 && all_read && history && !state.gss_transaction_history
                ==> r->Err_0 == Reply::Custom(RpcCustomError::TransactionHistoryNotAvailable)
            &&& r is Ok ==> {
                &&& request.upstream_disabled == upstream_disabled
                &&& request.search_transaction_history == history
                &&& request.signatures@.len() == texts@.len()
                &&& forall|i: int|
                    0 <= i < texts@.len() ==> keys::signature_of((#[trigger] texts@[i])@)->Ok_0
                        == request.signatures@[i]
                &&& action matches Action::Read(
                    ReadRequest::SignatureStatuses { signatures, search_transaction_history },
                )
                &&& signatures@ == request.signatures@
                &&& search_transaction_history == history
            }
        }),
{
    keys::law_signatures_are_read_one_by_one(texts@);
}

/// Another node is asked exactly where the history is searched, a status is
/// missing, the client allows it and there is a node. It is asked for the
/// signatures without a status, and for no others. Where no node is asked, the
/// reply is what the storage has.
pub proof fn law_missing_statuses_are_asked_for(
    request: RpcRequestSignatureStatuses,
    state: State,
    slots: StoredSlots,
    statuses: Vec<Option<String>>,
    action: Action,
)
    requires
        request.signatures@.len() == statuses@.len(),
        call_ensures(RpcRequestSignatureStatuses::on_read, (&request, &state, &slots, &statuses), action),
    ensures
        ({
            let more = request.search_transaction_history && !request.upstream_disabled && !no_node(
                state,
                ConfigRpcCallJson::GetSignatureStatuses,
            ) && exists|i: int| 0 <= i < statuses@.len() && (#[trigger] statuses@[i]) is None;
            &&& action is Upstream <==> more
            &&& action matches Action::Upstream { index, call, reason } ==> {
                &&& first_node(state, ConfigRpcCallJson::GetSignatureStatuses, index)
                &&& reason == Reason::MissingStatus
                &&& call matches UpstreamCall::SignatureStatuses { signatures }
                &&& forall|i: int|
                    0 <= i < statuses@.len() && (#[trigger] statuses@[i]) is None
                        ==> signatures@.contains(request.signatures@[i])
                &&& forall|k: int|
                    0 <= k < signatures@.len() ==> exists|i: int|
                        0 <= i < statuses@.len() && statuses@[i] is None
                            && #[trigger] request.signatures@[i] == #[trigger] signatures@[k]
            }
            &&& !more ==> {
                &&& action matches Action::Reply(Reply::Success(Payload::Statuses { slot, statuses: list }))
                &&& slot == slots.processed
                &&& same_texts(list@, statuses@)
            }
        }),
{
    lemma_node(state, ConfigRpcCallJson::GetSignatureStatuses);
    signatures::lemma_gaps_are_missing_statuses(statuses@);
    if let Action::Upstream { call: UpstreamCall::SignatureStatuses { signatures: asked }, .. } =
        action {
        let n = statuses@.len();
        assert(statuses@.take(n as int) =~= statuses@);
        assert forall|i: int| 0 <= i < n && (#[trigger] statuses@[i]) is None implies asked@.contains(
            request.signatures@[i],
        ) by {
            signatures::law_gaps_are_filled_by_their_signatures(request.signatures@, statuses@, n, i);
            assert(asked@[signatures::gaps(statuses@.take(i)) as int] == request.signatures@[i]);
        }
        assert forall|k: int| 0 <= k < asked@.len() implies exists|i: int|
            0 <= i < n && statuses@[i] is None && #[trigger] request.signatures@[i]
                == #[trigger] asked@[k] by {
            let i = signatures::lemma_missing_source(request.signatures@, statuses@, n, k);
            assert(request.signatures@[i] == asked@[k]);
        }
    }
    if let Action::Reply(Reply::Success(Payload::Statuses { slot, statuses: list })) = action {
        let a = crate::rpc::jsonrpc::optional_texts(list@);
        let b = crate::rpc::jsonrpc::optional_texts(statuses@);
        assert(a.len() == b.len());
        assert forall|i: int| 0 <= i < statuses@.len() implies same_text(
            #[trigger] list@[i],
            statuses@[i],
        ) by {
            assert(a[i] == b[i]);
        }
    }
}

/// Whether two texts are the same, or both missing.
pub open spec fn same_text(a: Option<String>, b: Option<String>) -> bool {
    &&& a is Some <==> b is Some
    &&& a is Some ==> a->0@ == b->0@
}

/// Whether two lists of texts are the same.
pub open spec fn same_texts(a: Seq<Option<String>>, b: Seq<Option<String>>) -> bool {
    &&& a.len() == b.len()
    &&& forall|i: int| 0 <= i < a.len() ==> same_text(#[trigger] a[i], b[i])
}

/// The statuses that another node gives fill the gaps: the reply has a status
/// for every signature, those of the storage stay, and a missing one is what
/// the other node gives for that signature among those that it was asked for.
pub proof fn law_each_status_is_that_of_its_signature(
    request: RpcRequestSignatureStatuses,
    state: State,
    asked: Vec<Signature>,
    index: usize,
    reason: Reason,
    slots: StoredSlots,
    later: StoredSlots,
    statuses: Vec<Option<String>>,
    values: Vec<Option<String>>,
    action: Action,
    i: int,
)
    requires
        request.signatures@.len() == statuses@.len(),
        call_ensures(
            RpcRequestSignatureStatuses::on_read,
            (&request, &state, &slots, &statuses),
            (Action::Upstream {
                index,
                call: UpstreamCall::SignatureStatuses { signatures: asked },
                reason,
            }),
        ),
        asked@.len() <= values@.len(),
        call_ensures(RpcRequestSignatureStatuses::on_statuses, (&later, &statuses, &values), action),
        0 <= i < statuses@.len(),
    ensures
        ({
            &&& action matches Action::Reply(Reply::Success(Payload::Statuses { slot, statuses: list }))
            &&& slot == later.processed
            &&& list@.len() == statuses@.len()
            &&& statuses@[i] is Some ==> same_text(list@[i], statuses@[i])
            &&& statuses@[i] is None ==> exists|k: int|
                0 <= k < asked@.len() && #[trigger] asked@[k] == request.signatures@[i]
                    && same_text(list@[i], values@[k])
        }),
{
    let n = statuses@.len();
    assert(statuses@.take(n as int) =~= statuses@);
    let list = action->Reply_0->Success_0->Statuses_statuses;
    let a = crate::rpc::jsonrpc::optional_texts(list@);
    let b = crate::rpc::jsonrpc::optional_texts(signatures::merged(statuses@, values@));
    assert(a == b);
    assert(a.len() == list@.len());
    assert(a[i] == b[i]);
    if statuses@[i] is None {
        signatures::law_gaps_are_filled_by_their_signatures(request.signatures@, statuses@, n, i);
        let k = signatures::gaps(statuses@.take(i)) as int;
        assert(asked@[k] == request.signatures@[i]);
        assert(same_text(list@[i], values@[k]));
    }
}

/// What another node answers to a request for statuses: its error is handed
/// on as it is, and there is no reply where it gives fewer statuses than are
/// missing. A status that the storage has stays.
pub proof fn law_statuses_of_another_node_fill_the_gaps(
    slots: StoredSlots,
    statuses: Vec<Option<String>>,
    answer: Result<Vec<u8>, String>,
    r: Option<Action>,
)
    requires
        call_ensures(RpcRequestSignatureStatuses::on_upstream, (&slots, &statuses, answer), r),
    ensures
        answer matches Err(error) ==> r == Some(Action::Fail(Failure::Upstream(error))),
        answer matches Ok(bytes) ==> {
            let reply = records::statuses_reply_of(bytes@);
            &&& reply is Malformed ==> r == Some(Action::Fail(Failure::UpstreamMalformed))
            &&& reply is Error ==> r == Some(Action::Reply(Reply::Forward(bytes)))
            &&& reply matches UpstreamReply::Success(values) ==> {
                &&& r is None <==> signatures::gaps(statuses@) > values.len()
                &&& r is Some ==> {
                    &&& r matches Some(
                        Action::Reply(Reply::Success(Payload::Statuses { slot, statuses: list })),
                    )
                    &&& slot == slots.processed
                    &&& list@.len() == statuses@.len()
                    &&& forall|i: int|
                        0 <= i < statuses@.len() && statuses@[i] is Some ==> same_text(
                            #[trigger] list@[i],
                            statuses@[i],
                        )
                }
            }
        },
{
    if let Some(Action::Reply(Reply::Success(Payload::Statuses { slot, statuses: list }))) = r {
        let a = crate::rpc::jsonrpc::optional_texts(list@);
        assert(a.len() == list@.len());
        assert forall|i: int| 0 <= i < statuses@.len() && statuses@[i] is Some implies same_text(
            #[trigger] list@[i],
            statuses@[i],
        ) by {
            assert(a[i] == Some(statuses@[i]->0@));
        }
    }
}

} // verus!
