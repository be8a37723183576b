//! How the blocks that hold rewards are found and fetched.

use crate::rpc::action::{
    self, Action, BlockEncodingOptions, Failure, Read, ReadRequest, ReadResultBlock,
    ReadResultBlockHeight, ReadResultBlocks, Reason, RpcRequestBlockWorkRequest,
    RpcRequestBlocksUntil, TransactionDetails, UiTransactionEncoding, UpstreamCall, WorkRequest,
};
use crate::rpc::inflation::request::RpcRequestInflationReward;
use crate::rpc::inflation::rewards::RewardsBlock;
use crate::rpc::jsonrpc::{Reply, RpcCustomError};
use crate::rpc::state::{Commitment, ConfigRpcCallJson, State, StoredSlots};
use vstd::prelude::*;

verus! {

/// How close to the end of the window that the storage keeps a list of blocks
/// may start: slots further down may be gone before the storage is asked.
pub const BLOCKS_MARGIN: u64 = 150;

/// Where a list of blocks comes from.
pub open spec fn blocks_source(
    state: State,
    slots: StoredSlots,
    upstream_disabled: bool,
    start_slot: u64,
    limit: usize,
) -> Action {
    let upstream = state.allowed_upstream(upstream_disabled, ConfigRpcCallJson::GetBlocksWithLimit);
    if start_slot < slots.first_available + BLOCKS_MARGIN && upstream is Some {
        Action::Upstream {
            index: upstream->0,
            call: UpstreamCall::BlocksParsed { start_slot, limit },
            reason: Reason::BelowRetention,
        }
    } else {
        Action::Read(
            ReadRequest::Blocks {
                start_slot,
                until: RpcRequestBlocksUntil::Limit(limit),
                commitment: Commitment::Confirmed,
            },
        )
    }
}

/// Asks for a list of blocks: the storage, or another node where the storage
/// may not have the first of them.
pub fn get_blocks_with_limit(
    state: &State,
    slots: &StoredSlots,
    upstream_disabled: bool,
    start_slot: u64,
    limit: usize,
) -> (r: Action)
    requires
        slots.first_available + BLOCKS_MARGIN <= u64::MAX,
    ensures
        r == blocks_source(*state, *slots, upstream_disabled, start_slot, limit),
{
    let first_available_slot: u64 = slots.first_available + BLOCKS_MARGIN;
    if start_slot < first_available_slot {
        if let Some(index) = state.get_allowed_upstream(
            upstream_disabled,
            ConfigRpcCallJson::GetBlocksWithLimit,
        ) {
            return Action::Upstream {
                index,
                call: UpstreamCall::BlocksParsed { start_slot, limit },
                reason: Reason::BelowRetention,
            };
        }
    }
    Action::Read(
        ReadRequest::Blocks {
            start_slot,
            until: RpcRequestBlocksUntil::Limit(limit),
            commitment: Commitment::Confirmed,
        },
    )
}

/// The list of blocks that the storage has, or the reply or the failure that
/// came instead.
pub fn blocks_from_storage(slots: &StoredSlots, start_slot: u64, read: Read<ReadResultBlocks>) -> (r: Result<
    Result<Vec<u64>, Reply>,
    Failure,
>)
    ensures
        r == (match action::received_of(read) {
            Err(failure) => Err(failure),
            Ok(ReadResultBlocks::Blocks(blocks)) => Ok(Ok(blocks)),
            Ok(ReadResultBlocks::Removed) => Ok(
                Err(
                    Reply::Custom(
                        RpcCustomError::BlockCleanedUp {
                            slot: start_slot,
                            first_available_block: slots.first_available,
                        },
                    ),
                ),
            ),
        }),
{
    match action::received(read) {
        Err(failure) => Err(failure),
        Ok(ReadResultBlocks::Blocks(blocks)) => Ok(Ok(blocks)),
        Ok(ReadResultBlocks::Removed) => Ok(
            Err(
                Reply::Custom(
                    RpcCustomError::BlockCleanedUp {
                        slot: start_slot,
                        first_available_block: slots.first_available,
                    },
                ),
            ),
        ),
    }
}

/// What another node answers: a value, or the bytes of an error. The text says
/// why there is no answer.
pub type UpstreamAnswer<T> = Result<Result<T, Vec<u8>>, String>;

/// The list of blocks that another node has, or the reply or the failure that
/// came instead.
pub fn blocks_from_upstream(answer: UpstreamAnswer<Vec<u64>>) -> (r: Result<
    Result<Vec<u64>, Reply>,
    Failure,
>)
    ensures
        r == (match answer {
            Ok(Ok(blocks)) => Ok(Ok(blocks)),
            Ok(Err(bytes)) => Ok(Err(Reply::Forward(bytes))),
            Err(error) => Err(Failure::Upstream(error)),
        }),
{
    match answer {
        Ok(Ok(blocks)) => Ok(Ok(blocks)),
        Ok(Err(bytes)) => Ok(Err(Reply::Forward(bytes))),
        Err(error) => Err(Failure::Upstream(error)),
    }
}

/// Where a block comes from that the storage does not have.
pub open spec fn block_upstream(state: State, upstream_disabled: bool, slot: u64, reason: Reason) -> Action {
    match state.allowed_upstream(upstream_disabled, ConfigRpcCallJson::GetBlock) {
        Some(index) => Action::Upstream {
            index,
            call: UpstreamCall::BlockRewards { slot },
            reason,
        },
        None => Action::Reply(Reply::Custom(RpcCustomError::LongTermStorageSlotSkipped { slot })),
    }
}

/// Asks another node for a block, where there is one.
pub fn get_block_with_rewards_upstream(
    state: &State,
    upstream_disabled: bool,
    slot: u64,
    reason: Reason,
) -> (r: Action)
    ensures
        r == block_upstream(*state, upstream_disabled, slot, reason),
{
    match state.get_allowed_upstream(upstream_disabled, ConfigRpcCallJson::GetBlock) {
        Some(index) => Action::Upstream {
            index,
            call: UpstreamCall::BlockRewards { slot },
            reason,
        },
        None => Action::Reply(Reply::Custom(RpcCustomError::LongTermStorageSlotSkipped { slot })),
    }
}

/// Where a block comes from.
pub open spec fn block_source(
    state: State,
    slots: StoredSlots,
    upstream_disabled: bool,
    slot: u64,
) -> Action {
    if slot <= slots.first_available {
        block_upstream(state, upstream_disabled, slot, Reason::BelowRetention)
    } else {
        Action::Read(ReadRequest::Block { slot })
    }
}

/// Asks for a block: the storage, or another node where the storage does not
/// have it.
pub fn get_block_with_rewards(
    state: &State,
    slots: &StoredSlots,
    upstream_disabled: bool,
    slot: u64,
) -> (r: Action)
    ensures
        r == block_source(*state, *slots, upstream_disabled, slot),
{
    if slot <= slots.first_available {
        get_block_with_rewards_upstream(state, upstream_disabled, slot, Reason::BelowRetention)
    } else {
        Action::Read(ReadRequest::Block { slot })
    }
}

/// How a block is encoded of which only the rewards are needed.
pub open spec fn rewards_encoding() -> BlockEncodingOptions {
    BlockEncodingOptions {
        transaction_details: TransactionDetails::Omitted,
        show_rewards: true,
        max_supported_transaction_version: None,
    }
}

/// Goes on with what the storage has in a slot: decodes the block, asks
/// another node where the storage does not have it any more, or replies that
/// there is none.
pub fn block_from_storage(
    state: &State,
    slots: &StoredSlots,
    upstream_disabled: bool,
    slot: u64,
    read: Read<ReadResultBlock>,
) -> (r: Action)
    ensures
        r == (match action::received_of(read) {
            Err(failure) => Action::Fail(failure),
            Ok(ReadResultBlock::Removed) => block_upstream(
                *state,
                upstream_disabled,
                slot,
                Reason::Removed,
            ),
            Ok(ReadResultBlock::Dead) => Action::Reply(
                Reply::Custom(RpcCustomError::SlotSkipped { slot }),
            ),
            Ok(ReadResultBlock::NotAvailable) => Action::Reply(
                Reply::Custom(RpcCustomError::BlockNotAvailable { slot }),
            ),
            Ok(ReadResultBlock::Block(bytes)) => if slot <= slots.first_available {
                block_upstream(*state, upstream_disabled, slot, Reason::BelowRetention)
            } else {
                Action::Encode(
                    WorkRequest::Block(
                        RpcRequestBlockWorkRequest {
                            slot,
                            encoding: UiTransactionEncoding::Base58,
                            encoding_options: rewards_encoding(),
                            bytes,
                        },
                    ),
                )
            },
        }),
{
    match action::received(read) {
        Err(failure) => Action::Fail(failure),
        Ok(ReadResultBlock::Removed) => get_block_with_rewards_upstream(
            state,
            upstream_disabled,
            slot,
            Reason::Removed,
        ),
        Ok(ReadResultBlock::Dead) => Action::Reply(
            Reply::Custom(RpcCustomError::SlotSkipped { slot }),
        ),
        Ok(ReadResultBlock::NotAvailable) => Action::Reply(
            Reply::Custom(RpcCustomError::BlockNotAvailable { slot }),
        ),
        Ok(ReadResultBlock::Block(bytes)) => {
            // The slot may have left the window while the block was read.
            if slot <= slots.first_available {
                return get_block_with_rewards_upstream(
                    state,
                    upstream_disabled,
                    slot,
                    Reason::BelowRetention,
                );
            }
            Action::Encode(
                WorkRequest::Block(
                    RpcRequestBlockWorkRequest {
                        slot,
                        encoding: UiTransactionEncoding::Base58,
                        encoding_options: BlockEncodingOptions {
                            transaction_details: TransactionDetails::Omitted,
                            show_rewards: true,
                            max_supported_transaction_version: None,
                        },
                        bytes,
                    },
                ),
            )
        },
    }
}

/// The block that another node has, or the reply or the failure that came
/// instead.
pub fn block_from_upstream(slot: u64, answer: UpstreamAnswer<Option<RewardsBlock>>) -> (r: Result<
    Result<RewardsBlock, Reply>,
    Failure,
>)
    ensures
        r == (match answer {
            Ok(Ok(Some(block))) => Ok(Ok(block)),
            Ok(Ok(None)) => Ok(
                Err(Reply::Custom(RpcCustomError::BlockNotAvailable { slot })),
            ),
            Ok(Err(bytes)) => Ok(Err(Reply::Forward(bytes))),
            Err(error) => Err(Failure::Upstream(error)),
        }),
{
    match answer {
        Ok(Ok(Some(block))) => Ok(Ok(block)),
        Ok(Ok(None)) => Ok(Err(Reply::Custom(RpcCustomError::BlockNotAvailable { slot }))),
        Ok(Err(bytes)) => Ok(Err(Reply::Forward(bytes))),
        Err(error) => Err(Failure::Upstream(error)),
    }
}

/// Asks the storage for the height of the newest block, to tell that rewards
/// are still being paid.
pub fn get_block_height(request: &RpcRequestInflationReward) -> (r: Action)
    ensures
        r == Action::Read(ReadRequest::BlockHeight { commitment: request.commitment }),
{
    Action::Read(ReadRequest::BlockHeight { commitment: request.commitment })
}

/// Replies that rewards are still being paid, or fails.
pub fn error_epoch_rewards_period_active(
    rewards_complete_block_height: u64,
    read: Read<ReadResultBlockHeight>,
) -> (r: Action)
    ensures
        r == (match action::received_of(read) {
            Err(failure) => Action::Fail(failure),
            Ok(height) => Action::Reply(
                Reply::Custom(
                    RpcCustomError::EpochRewardsPeriodActive {
                        slot: height.slot,
                        current_block_height: height.block_height,
                        rewards_complete_block_height,
                    },
                ),
            ),
        }),
{
    match action::received(read) {
        Err(failure) => Action::Fail(failure),
        Ok(height) => Action::Reply(
            Reply::Custom(
                RpcCustomError::EpochRewardsPeriodActive {
                    slot: height.slot,
                    current_block_height: height.block_height,
                    rewards_complete_block_height,
                },
            ),
        ),
    }
}

/// A request that forbids it asks no other node for blocks.
pub proof fn law_disabled_rewards_ask_no_upstream(
    state: State,
    slots: StoredSlots,
    start_slot: u64,
    limit: usize,
    slot: u64,
    reason: Reason,
)
    ensures
        !(blocks_source(state, slots, true, start_slot, limit) is Upstream),
        !(block_source(state, slots, true, slot) is Upstream),
        !(block_upstream(state, true, slot, reason) is Upstream),
{
}

} // verus!
