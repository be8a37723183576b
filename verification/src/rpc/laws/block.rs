//! Laws of `getBlock`, `getBlockHeight`, `getBlocks`, `getBlocksWithLimit` and
//! `getBlockTime`.

use crate::rpc::action::{
    Action, BlockEncodingOptions, Read, ReadRequest, ReadResultBlock, ReadResultBlockHeight,
    ReadResultBlockTime, ReadResultBlocks, Reason, RpcRequestBlocksUntil, TransactionDetails,
    UiTransactionEncoding, UpstreamCall, WorkRequest,
};
use crate::rpc::block::{
    RpcBlocksConfigWrapper, RpcRequestBlock, RpcRequestBlockHeight, RpcRequestBlockTime,
    RpcRequestBlocks, RpcRequestBlocksWithLimit,
};
use crate::rpc::jsonrpc::{InvalidParams, Payload, Reply, RpcCustomError};
use crate::rpc::laws::{
    context_behind, first_node, given, given_commitment, lemma_node, newest, no_node,
};
use crate::rpc::params::{RpcBlockConfig, RpcContextConfig, RpcEncodingConfigWrapper};
use crate::rpc::state::{Commitment, ConfigRpcCallJson, State, StoredSlots};
use vstd::prelude::*;

verus! {

// ------------------------------------------------------- getBlock

/// Whether a block is encoded as a client asks for it.
pub open spec fn encoded_as_given(
    config: RpcBlockConfig,
    encoding: UiTransactionEncoding,
    options: BlockEncodingOptions,
) -> bool {
    &&& encoding == given(config.encoding, UiTransactionEncoding::Json)
    &&& options.transaction_details == given(config.transaction_details, TransactionDetails::Full)
    &&& options.show_rewards == given(config.rewards, true)
    &&& options.max_supported_transaction_version == config.max_supported_transaction_version
}

/// A request for a block is refused exactly where it asks for less than
/// confirmed blocks. One that is accepted keeps everything that the client
/// gives.
pub proof fn law_block_request_keeps_what_is_given(
    upstream_disabled: bool,
    slot: u64,
    config: RpcBlockConfig,
    r: Result<RpcRequestBlock, Reply>,
)
    requires
        call_ensures(
            RpcRequestBlock::parse,
            (upstream_disabled, slot, Some(RpcEncodingConfigWrapper::Current(Some(config)))),
            r,
        ),
    ensures
        r is Err <==> config.commitment == Some(Commitment::Processed),
        r matches Err(reply) ==> reply == Reply::InvalidParams(
            InvalidParams::CommitmentBelowConfirmed,
        ),
        r matches Ok(request) ==> {
            &&& request.upstream_disabled == upstream_disabled
            &&& request.slot == slot
            &&& request.commitment == given(config.commitment, Commitment::Finalized)
            &&& encoded_as_given(config, request.encoding, request.encoding_options)
        },
{
}

/// An encoding alone, or nothing, means the same as options that say only
/// that.
pub proof fn law_block_request_in_older_forms(
    upstream_disabled: bool,
    slot: u64,
    encoding: Option<UiTransactionEncoding>,
    config: RpcBlockConfig,
    older: Result<RpcRequestBlock, Reply>,
    bare: Result<RpcRequestBlock, Reply>,
    empty: Result<RpcRequestBlock, Reply>,
    r: Result<RpcRequestBlock, Reply>,
)
    requires
        config.encoding == encoding,
        config.transaction_details is None,
        config.rewards is None,
        config.commitment is None,
        config.max_supported_transaction_version is None,
        call_ensures(
            RpcRequestBlock::parse,
            (upstream_disabled, slot, Some(RpcEncodingConfigWrapper::Deprecated(encoding))),
            older,
        ),
        call_ensures(RpcRequestBlock::parse, (upstream_disabled, slot, None), bare),
        call_ensures(
            RpcRequestBlock::parse,
            (upstream_disabled, slot, Some(RpcEncodingConfigWrapper::Current(None))),
            empty,
        ),
        call_ensures(
            RpcRequestBlock::parse,
            (upstream_disabled, slot, Some(RpcEncodingConfigWrapper::Current(Some(config)))),
            r,
        ),
    ensures
        older == r,
        encoding is None ==> bare == r && empty == r,
{
}

/// Whether a block is got from elsewhere as a client asks for it: from the
/// first node that may be asked, with all that the client gives. Where the
/// client forbids it the reply is null, and where there is no node the slot is
/// told to be skipped.
pub open spec fn block_from_elsewhere(
    upstream_disabled: bool,
    slot: u64,
    config: RpcBlockConfig,
    state: State,
    why: Reason,
    action: Action,
) -> bool {
    if upstream_disabled {
        action == Action::Reply(Reply::Success(Payload::Null))
    } else if no_node(state, ConfigRpcCallJson::GetBlock) {
        action == Action::Reply(
            Reply::Custom(RpcCustomError::LongTermStorageSlotSkipped { slot }),
        )
    } else {
        &&& action matches Action::Upstream { index, call, reason }
        &&& first_node(state, ConfigRpcCallJson::GetBlock, index)
        &&& reason == why
        &&& call matches UpstreamCall::Block { slot: asked, commitment, encoding, encoding_options }
        &&& asked == slot
        &&& commitment == given(config.commitment, Commitment::Finalized)
        &&& encoded_as_given(config, encoding, encoding_options)
    }
}

/// What comes of a request for a block before the storage is asked, by the
/// slot alone: beyond the newest one there is no block yet, within the window
/// the storage is asked for it, and below the window it is got from elsewhere.
pub proof fn law_block_is_looked_for_where_it_is(
    upstream_disabled: bool,
    slot: u64,
    config: RpcBlockConfig,
    state: State,
    slots: StoredSlots,
    request: RpcRequestBlock,
    action: Action,
)
    requires
        call_ensures(
            RpcRequestBlock::parse,
            (upstream_disabled, slot, Some(RpcEncodingConfigWrapper::Current(Some(config)))),
            Ok(request),
        ),
        call_ensures(RpcRequestBlock::start, (&request, &state, &slots), action),
    ensures
        ({
            let tip = newest(slots, given(config.commitment, Commitment::Finalized));
            &&& slot > tip ==> action == Action::Reply(
                Reply::Custom(RpcCustomError::BlockNotAvailable { slot }),
            )
            &&& slots.first_available < slot <= tip ==> action == Action::Read(
                ReadRequest::Block { slot },
            )
            &&& slot <= tip && slot <= slots.first_available ==> block_from_elsewhere(
                upstream_disabled,
                slot,
                config,
                state,
                Reason::BelowRetention,
                action,
            )
        }),
{
    lemma_node(state, ConfigRpcCallJson::GetBlock);
}

/// What comes of what the storage has in a slot: a block that is still in the
/// window is encoded as the client asks for it, one that is gone is got from
/// elsewhere, and the client is told of a slot without a block.
pub proof fn law_block_is_given_as_asked(
    upstream_disabled: bool,
    slot: u64,
    config: RpcBlockConfig,
    state: State,
    slots: StoredSlots,
    read: Read<ReadResultBlock>,
    request: RpcRequestBlock,
    action: Action,
)
    requires
        call_ensures(
            RpcRequestBlock::parse,
            (upstream_disabled, slot, Some(RpcEncodingConfigWrapper::Current(Some(config)))),
            Ok(request),
        ),
        call_ensures(RpcRequestBlock::on_read, (&request, &state, &slots, read), action),
    ensures
        read is Value && read->Value_0 is Block && slots.first_available < slot ==> {
            &&& action matches Action::Encode(WorkRequest::Block(work))
            &&& work.slot == slot
            &&& work.bytes == read->Value_0->Block_0
            &&& encoded_as_given(config, work.encoding, work.encoding_options)
        },
        read is Value && read->Value_0 is Block && slot <= slots.first_available
            ==> block_from_elsewhere(
            upstream_disabled,
            slot,
            config,
            state,
            Reason::BelowRetention,
            action,
        ),
        read is Value && read->Value_0 is Removed ==> block_from_elsewhere(
            upstream_disabled,
            slot,
            config,
            state,
            Reason::Removed,
            action,
        ),
        read is Value && read->Value_0 is Dead ==> action == Action::Reply(
            Reply::Custom(RpcCustomError::SlotSkipped { slot }),
        ),
        read is Value && read->Value_0 is NotAvailable ==> action == Action::Reply(
            Reply::Custom(RpcCustomError::BlockNotAvailable { slot }),
        ),
        !(read is Value) ==> action is Fail,
{
    lemma_node(state, ConfigRpcCallJson::GetBlock);
}

// ------------------------------------------------------- getBlockHeight

/// The height is asked for with the commitment that the client gives, and
/// replied as the storage has it. The request is refused exactly where this
/// node has not reached the slot that the client asks for, which is told the
/// slot that it has reached.
pub proof fn law_block_height_is_that_of_the_storage(
    slots: StoredSlots,
    config: Option<RpcContextConfig>,
    read: Read<ReadResultBlockHeight>,
    r: Result<RpcRequestBlockHeight, Reply>,
    request: RpcRequestBlockHeight,
    first: Action,
    next: Action,
)
    requires
        call_ensures(RpcRequestBlockHeight::parse, (&slots, config), r),
        r matches Ok(accepted) ==> accepted == request,
        call_ensures(RpcRequestBlockHeight::start, (&request,), first),
        call_ensures(RpcRequestBlockHeight::on_read, (&request, read), next),
    ensures
        r is Err <==> context_behind(config, slots),
        r matches Err(reply) ==> reply == Reply::Custom(
            RpcCustomError::MinContextSlotNotReached {
                context_slot: newest(slots, given_commitment(config)),
            },
        ),
        r is Ok ==> first == Action::Read(
            ReadRequest::BlockHeight { commitment: given_commitment(config) },
        ),
        read matches Read::Value(height) ==> next == Action::Reply(
            Reply::Success(Payload::Number(height.block_height)),
        ),
        !(read is Value) ==> next is Fail,
{
}

// ------------------------------------------------------- getBlocks and getBlocksWithLimit

/// Whether a list of blocks is refused for its options: less than confirmed
/// blocks are asked for, or finalized blocks of a node that has not finalized
/// the slot that the client asks for.
pub open spec fn list_refused(config: RpcContextConfig, slots: StoredSlots, reply: Reply) -> bool {
    ||| config.commitment == Some(Commitment::Processed) && reply == Reply::InvalidParams(
        InvalidParams::CommitmentBelowConfirmed,
    )
    ||| given(config.commitment, Commitment::Finalized) is Finalized
        && config.min_context_slot is Some && slots.finalized < config.min_context_slot->0 && reply
        == Reply::Custom(
        RpcCustomError::MinContextSlotNotReached { context_slot: slots.finalized },
    )
}

/// Whether the options of a list of blocks are in order.
pub open spec fn list_accepted(config: RpcContextConfig, slots: StoredSlots) -> bool {
    &&& config.commitment != Some(Commitment::Processed)
    &&& given(config.commitment, Commitment::Finalized) is Finalized
        && config.min_context_slot is Some ==> config.min_context_slot->0 <= slots.finalized
}

/// The slots that are looked at start where the client asks for it, and end
/// with the last one that the client gives, or as far on as is allowed, but
/// never beyond the newest slot. Of an empty range there are no blocks, and
/// one that is too large is refused.
pub proof fn law_blocks_are_those_of_the_range(
    slots: StoredSlots,
    upstream_disabled: bool,
    start_slot: u64,
    end_slot: Option<u64>,
    config: RpcContextConfig,
    r: Result<RpcRequestBlocks, Reply>,
)
    requires
        call_ensures(
            RpcRequestBlocks::parse,
            (
                &slots,
                upstream_disabled,
                start_slot,
                Some(RpcBlocksConfigWrapper::EndSlotOnly(end_slot)),
                Some(config),
            ),
            r,
        ),
    ensures
        ({
            let tip = newest(slots, given(config.commitment, Commitment::Finalized)) as int;
            let wanted = if end_slot is Some {
                end_slot->0 as int
            } else {
                start_slot + 500_000
            };
            &&& r matches Ok(request) ==> {
                &&& list_accepted(config, slots)
                &&& request.upstream_disabled == upstream_disabled
                &&& request.start_slot == start_slot
                &&& request.commitment == given(config.commitment, Commitment::Finalized)
                &&& request.until matches RpcRequestBlocksUntil::EndSlot(last)
                &&& start_slot <= last <= start_slot + 500_000
                &&& last <= wanted
                &&& last <= tip
                &&& last == wanted || last == tip
            }
            &&& r matches Err(reply) ==> {
                ||| list_refused(config, slots, reply)
                ||| list_accepted(config, slots) && (wanted < start_slot || tip < start_slot) && (
                reply matches Reply::Success(Payload::Slots(none)) && none@.len() == 0)
                ||| list_accepted(config, slots) && wanted > start_slot + 500_000 && tip
                    > start_slot + 500_000 && reply == Reply::InvalidParams(
                    InvalidParams::SlotRangeTooLarge { max: 500_000 },
                )
            }
        }),
{
}

/// Options in place of an end slot mean the same as options behind no end
/// slot, and options at the end count before those in place of an end slot.
pub proof fn law_blocks_options_in_either_place(
    slots: StoredSlots,
    upstream_disabled: bool,
    start_slot: u64,
    config: RpcContextConfig,
    other: Option<RpcContextConfig>,
    in_place: Result<RpcRequestBlocks, Reply>,
    twice: Result<RpcRequestBlocks, Reply>,
    behind: Result<RpcRequestBlocks, Reply>,
)
    requires
        call_ensures(
            RpcRequestBlocks::parse,
            (
                &slots,
                upstream_disabled,
                start_slot,
                Some(RpcBlocksConfigWrapper::ConfigOnly(Some(config))),
                None,
            ),
            in_place,
        ),
        call_ensures(
            RpcRequestBlocks::parse,
            (
                &slots,
                upstream_disabled,
                start_slot,
                Some(RpcBlocksConfigWrapper::ConfigOnly(other)),
                Some(config),
            ),
            twice,
        ),
        call_ensures(
            RpcRequestBlocks::parse,
            (&slots, upstream_disabled, start_slot, None, Some(config)),
            behind,
        ),
    ensures
        in_place is Ok <==> behind is Ok,
        twice is Ok <==> behind is Ok,
        in_place matches Ok(request) ==> behind == Ok::<RpcRequestBlocks, Reply>(request),
        twice matches Ok(request) ==> behind == Ok::<RpcRequestBlocks, Reply>(request),
        in_place matches Err(reply) ==> behind->Err_0@ == reply@,
        twice matches Err(reply) ==> behind->Err_0@ == reply@,
{
}

/// No end slot means the same as none that is named, and no options the same
/// as options that say nothing.
pub proof fn law_blocks_without_options(
    slots: StoredSlots,
    upstream_disabled: bool,
    start_slot: u64,
    end_slot: Option<u64>,
    limit: usize,
    config: RpcContextConfig,
    unnamed: Result<RpcRequestBlocks, Reply>,
    without: Result<RpcRequestBlocks, Reply>,
    bare: Result<RpcRequestBlocks, Reply>,
    r: Result<RpcRequestBlocks, Reply>,
    bare_limit: Result<RpcRequestBlocksWithLimit, Reply>,
    with_limit: Result<RpcRequestBlocksWithLimit, Reply>,
)
    requires
        config.commitment is None,
        config.min_context_slot is None,
        call_ensures(
            RpcRequestBlocks::parse,
            (
                &slots,
                upstream_disabled,
                start_slot,
                Some(RpcBlocksConfigWrapper::EndSlotOnly(None)),
                Some(config),
            ),
            unnamed,
        ),
        call_ensures(
            RpcRequestBlocks::parse,
            (&slots, upstream_disabled, start_slot, None, None),
            without,
        ),
        call_ensures(
            RpcRequestBlocks::parse,
            (
                &slots,
                upstream_disabled,
                start_slot,
                Some(RpcBlocksConfigWrapper::EndSlotOnly(end_slot)),
                None,
            ),
            bare,
        ),
        call_ensures(
            RpcRequestBlocks::parse,
            (
                &slots,
                upstream_disabled,
                start_slot,
                Some(RpcBlocksConfigWrapper::EndSlotOnly(end_slot)),
                Some(config),
            ),
            r,
        ),
        call_ensures(
            RpcRequestBlocksWithLimit::parse,
            (&slots, upstream_disabled, start_slot, limit, None),
            bare_limit,
        ),
        call_ensures(
            RpcRequestBlocksWithLimit::parse,
            (&slots, upstream_disabled, start_slot, limit, Some(config)),
            with_limit,
        ),
    ensures
        without is Ok <==> unnamed is Ok,
        without matches Ok(request) ==> unnamed == Ok::<RpcRequestBlocks, Reply>(request),
        without matches Err(reply) ==> unnamed->Err_0@ == reply@,
        bare is Ok <==> r is Ok,
        bare matches Ok(request) ==> r == Ok::<RpcRequestBlocks, Reply>(request),
        bare matches Err(reply) ==> r->Err_0@ == reply@,
        bare_limit is Ok <==> with_limit is Ok,
        bare_limit matches Ok(request) ==> with_limit == Ok::<RpcRequestBlocksWithLimit, Reply>(
            request,
        ),
        bare_limit matches Err(reply) ==> with_limit->Err_0@ == reply@,
{
}

/// As many blocks are looked for as the client asks for, from where it asks
/// for them. Of none there are none, and too many are refused.
pub proof fn law_as_many_blocks_as_given(
    slots: StoredSlots,
    upstream_disabled: bool,
    start_slot: u64,
    limit: usize,
    config: RpcContextConfig,
    r: Result<RpcRequestBlocksWithLimit, Reply>,
)
    requires
        call_ensures(
            RpcRequestBlocksWithLimit::parse,
            (&slots, upstream_disabled, start_slot, limit, Some(config)),
            r,
        ),
    ensures
        r is Ok <==> list_accepted(config, slots) && 0 < limit <= 500_000,
        r matches Ok(request) ==> {
            &&& request.upstream_disabled == upstream_disabled
            &&& request.start_slot == start_slot
            &&& request.commitment == given(config.commitment, Commitment::Finalized)
            &&& request.until == RpcRequestBlocksUntil::Limit(limit)
        },
        r matches Err(reply) ==> {
            ||| list_refused(config, slots, reply)
            ||| list_accepted(config, slots) && limit == 0 && (reply matches Reply::Success(
                Payload::Slots(none),
            ) && none@.len() == 0)
            ||| list_accepted(config, slots) && limit > 500_000 && reply == Reply::InvalidParams(
                InvalidParams::LimitTooLarge { max: 500_000 },
            )
        },
{
}

/// A list of blocks is asked of another node exactly where the storage may
/// not have the first of them, the client allows it and there is such a node.
/// Whoever is asked is asked for the same list. A request for a number of
/// blocks is processed as one for a list.
pub proof fn law_blocks_are_asked_for_as_given(
    request: RpcRequestBlocks,
    counted: RpcRequestBlocksWithLimit,
    listed: RpcRequestBlocks,
    state: State,
    slots: StoredSlots,
    action: Action,
)
    requires
        call_ensures(RpcRequestBlocks::start, (&request, &state, &slots), action),
        call_ensures(RpcRequestBlocksWithLimit::into_blocks, (counted,), listed),
    ensures
        action is Upstream <==> request.start_slot < slots.first_available + 32
            && !request.upstream_disabled && !no_node(state, ConfigRpcCallJson::GetBlocks),
        action matches Action::Upstream { index, call, reason } ==> {
            &&& first_node(state, ConfigRpcCallJson::GetBlocks, index)
            &&& reason == Reason::BelowRetention
            &&& call matches UpstreamCall::Blocks { start_slot, until, commitment }
            &&& start_slot == request.start_slot
            &&& until == request.until
            &&& commitment == request.commitment
        },
        !(action is Upstream) ==> {
            &&& action matches Action::Read(ReadRequest::Blocks { start_slot, until, commitment })
            &&& start_slot == request.start_slot
            &&& until == request.until
            &&& commitment == request.commitment
        },
        listed.upstream_disabled == counted.upstream_disabled,
        listed.start_slot == counted.start_slot,
        listed.until == counted.until,
        listed.commitment == counted.commitment,
{
    lemma_node(state, ConfigRpcCallJson::GetBlocks);
}

/// The blocks are replied as the storage has them, and the client is told
/// where they were removed.
pub proof fn law_blocks_are_those_of_the_storage(
    request: RpcRequestBlocks,
    slots: StoredSlots,
    read: Read<ReadResultBlocks>,
    action: Action,
)
    requires
        call_ensures(RpcRequestBlocks::on_read, (&request, &slots, read), action),
    ensures
        read matches Read::Value(ReadResultBlocks::Blocks(blocks)) ==> action == Action::Reply(
            Reply::Success(Payload::Slots(blocks)),
        ),
        read is Value && read->Value_0 is Removed ==> action == Action::Reply(
            Reply::Custom(
                RpcCustomError::BlockCleanedUp {
                    slot: request.start_slot,
                    first_available_block: slots.first_available,
                },
            ),
        ),
        !(read is Value) ==> action is Fail,
{
}

// ------------------------------------------------------- getBlockTime

/// The time of slot zero is known. Any other is asked of the storage, for the
/// slot that the client gives, and replied as the storage has it. Where it was
/// removed it is asked of another node, unless the client forbids it or there
/// is none.
pub proof fn law_block_time_is_that_of_the_slot(
    upstream_disabled: bool,
    slot: u64,
    state: State,
    slots: StoredSlots,
    read: Read<ReadResultBlockTime>,
    r: Result<RpcRequestBlockTime, Reply>,
    request: RpcRequestBlockTime,
    first: Action,
    next: Action,
)
    requires
        call_ensures(RpcRequestBlockTime::parse, (upstream_disabled, slot), r),
        r matches Ok(accepted) ==> accepted == request,
        call_ensures(RpcRequestBlockTime::start, (&request,), first),
        call_ensures(RpcRequestBlockTime::on_read, (&request, &state, &slots, read), next),
    ensures
        r is Err <==> slot == 0,
        r matches Err(reply) ==> reply == Reply::Success(Payload::Timestamp(1_584_368_940)),
        r is Ok ==> {
            &&& first == Action::Read(ReadRequest::BlockTime { slot })
            &&& read matches Read::Value(ReadResultBlockTime::BlockTime(Some(time))) ==> next
                == Action::Reply(Reply::Success(Payload::Timestamp(time)))
            &&& read matches Read::Value(ReadResultBlockTime::BlockTime(None)) ==> next
                == Action::Reply(Reply::Success(Payload::Null))
            &&& read is Value && read->Value_0 is Dead ==> next == Action::Reply(
                Reply::Custom(RpcCustomError::SlotSkipped { slot }),
            )
            &&& read is Value && read->Value_0 is NotAvailable ==> next == Action::Reply(
                Reply::Custom(RpcCustomError::BlockNotAvailable { slot }),
            )
            &&& read is Value && read->Value_0 is Removed && (upstream_disabled || no_node(
                state,
                ConfigRpcCallJson::GetBlockTime,
            )) ==> next == Action::Reply(
                Reply::Custom(
                    RpcCustomError::BlockCleanedUp {
                        slot,
                        first_available_block: slots.first_available,
                    },
                ),
            )
            &&& read is Value && read->Value_0 is Removed && !upstream_disabled && !no_node(
                state,
                ConfigRpcCallJson::GetBlockTime,
            ) ==> {
                &&& next matches Action::Upstream { index, call, reason }
                &&& first_node(state, ConfigRpcCallJson::GetBlockTime, index)
                &&& call == (UpstreamCall::BlockTime { slot })
                &&& reason == Reason::Removed
            }
            &&& !(read is Value) ==> next is Fail
        },
{
    lemma_node(state, ConfigRpcCallJson::GetBlockTime);
}

} // verus!
