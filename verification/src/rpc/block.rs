//! `getBlock`, `getBlockHeight`, `getBlocks`, `getBlocksWithLimit` and
//! `getBlockTime`.

use crate::rpc::action::{
    self, Action, BlockEncodingOptions, Read, ReadRequest, ReadResultBlock, ReadResultBlockHeight,
    ReadResultBlockTime, ReadResultBlocks, Reason, RpcRequestBlockWorkRequest,
    RpcRequestBlocksUntil, TransactionDetails, UiTransactionEncoding, UpstreamCall, WorkRequest,
};
use crate::rpc::jsonrpc::{
    InvalidParams, Payload, PayloadView, Reply, ReplyView, RpcCustomError,
};
use crate::rpc::params::{
    self, RpcBlockConfig, RpcContextConfig, RpcEncodingConfigWrapper,
};
use crate::rpc::state::{self, Commitment, ConfigRpcCallJson, State, StoredSlots};
use vstd::prelude::*;

verus! {

// ------------------------------------------------------- getBlock

/// A request for a block.
#[derive(Debug, Clone, Copy, PartialEq, Eq, Structural)]
pub struct RpcRequestBlock {
    pub upstream_disabled: bool,
    pub slot: u64,
    pub commitment: Commitment,
    pub encoding: UiTransactionEncoding,
    pub encoding_options: BlockEncodingOptions,
}

impl RpcRequestBlock {
    /// The request that the parameters come to, where it is not refused.
    pub open spec fn of(upstream_disabled: bool, slot: u64, config: RpcBlockConfig) -> RpcRequestBlock {
        RpcRequestBlock {
            upstream_disabled,
            slot,
            commitment: state::commitment_or_default(config.commitment),
            encoding: params::encoding_or_default(config.encoding),
            encoding_options: BlockEncodingOptions {
                transaction_details: match config.transaction_details {
                    Some(details) => details,
                    None => TransactionDetails::Full,
                },
                show_rewards: match config.rewards {
                    Some(show) => show,
                    None => true,
                },
                max_supported_transaction_version: config.max_supported_transaction_version,
            },
        }
    }

    /// The request that the parameters come to.
    pub fn parse(
        upstream_disabled: bool,
        slot: u64,
        config: Option<RpcEncodingConfigWrapper<RpcBlockConfig>>,
    ) -> (r: Result<RpcRequestBlock, Reply>)
        ensures
            ({
                let request = RpcRequestBlock::of(
                    upstream_disabled,
                    slot,
                    RpcBlockConfig::of(config),
                );
                r == if request.commitment.at_least_confirmed() {
                    Ok(request)
                } else {
                    Err(Reply::InvalidParams(InvalidParams::CommitmentBelowConfirmed))
                }
            }),
    {
        let config: RpcBlockConfig = RpcBlockConfig::current(config);
        let encoding: UiTransactionEncoding = params::unwrap_encoding(config.encoding);
        let encoding_options = BlockEncodingOptions {
            transaction_details: match config.transaction_details {
                Some(details) => details,
                None => TransactionDetails::Full,
            },
            show_rewards: match config.rewards {
                Some(show) => show,
                None => true,
            },
            max_supported_transaction_version: config.max_supported_transaction_version,
        };
        let commitment: Commitment = state::unwrap_commitment(config.commitment);
        if let Err(error) = state::check_is_at_least_confirmed(commitment) {
            return Err(Reply::InvalidParams(error));
        }
        Ok(RpcRequestBlock { upstream_disabled, slot, commitment, encoding, encoding_options })
    }

    /// Where a block comes from that the storage does not have.
    pub open spec fn upstream_action(self, state: State, reason: Reason) -> Action {
        if self.upstream_disabled {
            Action::Reply(Reply::Success(Payload::Null))
        } else {
            match state.upstream(ConfigRpcCallJson::GetBlock) {
                Some(index) => Action::Upstream {
                    index,
                    call: UpstreamCall::Block {
                        slot: self.slot,
                        commitment: self.commitment,
                        encoding: self.encoding,
                        encoding_options: self.encoding_options,
                    },
                    reason,
                },
                None => Action::Reply(
                    Reply::Custom(RpcCustomError::LongTermStorageSlotSkipped { slot: self.slot }),
                ),
            }
        }
    }

    /// Asks another node for the block, where there is one.
    pub fn fetch_upstream(&self, state: &State, reason: Reason) -> (r: Action)
        ensures
            r == self.upstream_action(*state, reason),
    {
        if self.upstream_disabled {
            return Action::Reply(Reply::Success(Payload::Null));
        }
        match state.get_upstream(ConfigRpcCallJson::GetBlock) {
            Some(index) => Action::Upstream {
                index,
                call: UpstreamCall::Block {
                    slot: self.slot,
                    commitment: self.commitment,
                    encoding: self.encoding,
                    encoding_options: self.encoding_options,
                },
                reason,
            },
            None => Action::Reply(
                Reply::Custom(RpcCustomError::LongTermStorageSlotSkipped { slot: self.slot }),
            ),
        }
    }

    /// What the request does first: a block beyond the newest one is not
    /// available, and others are asked for.
    pub open spec fn first_action(self, state: State, slots: StoredSlots) -> Action {
        if self.slot > slots.tip(self.commitment) {
            Action::Reply(Reply::Custom(RpcCustomError::BlockNotAvailable { slot: self.slot }))
        } else if self.slot <= slots.first_available {
            self.upstream_action(state, Reason::BelowRetention)
        } else {
            Action::Read(ReadRequest::Block { slot: self.slot })
        }
    }

    /// What the request does with the block that the storage has.
    pub open spec fn next_action(self, state: State, slots: StoredSlots, read: Read<ReadResultBlock>) -> Action {
        match action::received_of(read) {
            Err(failure) => Action::Fail(failure),
            Ok(ReadResultBlock::Removed) => self.upstream_action(state, Reason::Removed),
            Ok(ReadResultBlock::Dead) => Action::Reply(
                Reply::Custom(RpcCustomError::SlotSkipped { slot: self.slot }),
            ),
            Ok(ReadResultBlock::NotAvailable) => Action::Reply(
                Reply::Custom(RpcCustomError::BlockNotAvailable { slot: self.slot }),
            ),
            Ok(ReadResultBlock::Block(bytes)) => if self.slot <= slots.first_available {
                self.upstream_action(state, Reason::BelowRetention)
            } else {
                Action::Encode(
                    WorkRequest::Block(
                        RpcRequestBlockWorkRequest {
                            slot: self.slot,
                            encoding: self.encoding,
                            encoding_options: self.encoding_options,
                            bytes,
                        },
                    ),
                )
            },
        }
    }

    /// What the request does first: replies that a block beyond the newest one
    /// is not available, and asks for the block otherwise.
    pub fn start(&self, state: &State, slots: &StoredSlots) -> (r: Action)
        requires
            self.commitment.at_least_confirmed(),
        ensures
            r == self.first_action(*state, *slots),
    {
        if self.slot > slots.load(self.commitment) {
            return Action::Reply(
                Reply::Custom(RpcCustomError::BlockNotAvailable { slot: self.slot }),
            );
        }
        if self.slot <= slots.first_available {
            return self.fetch_upstream(state, Reason::BelowRetention);
        }
        Action::Read(ReadRequest::Block { slot: self.slot })
    }

    /// What the request does with the block that the storage has.
    pub fn on_read(&self, state: &State, slots: &StoredSlots, read: Read<ReadResultBlock>) -> (r: Action)
        ensures
            r == self.next_action(*state, *slots, read),
    {
        match action::received(read) {
            Err(failure) => Action::Fail(failure),
            Ok(ReadResultBlock::Removed) => self.fetch_upstream(state, Reason::Removed),
            Ok(ReadResultBlock::Dead) => Action::Reply(
                Reply::Custom(RpcCustomError::SlotSkipped { slot: self.slot }),
            ),
            Ok(ReadResultBlock::NotAvailable) => Action::Reply(
                Reply::Custom(RpcCustomError::BlockNotAvailable { slot: self.slot }),
            ),
            Ok(ReadResultBlock::Block(bytes)) => {
                // The slot may have left the window while the block was read.
                if self.slot <= slots.first_available {
                    return self.fetch_upstream(state, Reason::BelowRetention);
                }
                Action::Encode(
                    WorkRequest::Block(
                        RpcRequestBlockWorkRequest {
                            slot: self.slot,
                            encoding: self.encoding,
                            encoding_options: self.encoding_options,
                            bytes,
                        },
                    ),
                )
            },
        }
    }
}

/// A request that forbids it asks no other node, at no point.
pub proof fn law_disabled_block_asks_no_upstream(
    request: RpcRequestBlock,
    state: State,
    slots: StoredSlots,
    read: Read<ReadResultBlock>,
)
    requires
        request.upstream_disabled,
    ensures
        !(request.first_action(state, slots) is Upstream),
        !(request.next_action(state, slots, read) is Upstream),
{
}

/// The storage is asked only for blocks of the window that it keeps, and its
/// blocks are used only while they are in that window.
pub proof fn law_block_is_read_within_the_window(
    request: RpcRequestBlock,
    state: State,
    slots: StoredSlots,
    read: Read<ReadResultBlock>,
)
    ensures
        request.first_action(state, slots) is Read ==> slots.first_available < request.slot
            <= slots.tip(request.commitment),
        request.next_action(state, slots, read) is Encode ==> slots.first_available < request.slot,
{
}

// ------------------------------------------------------- getBlockHeight

/// A request for the height of the newest block.
#[derive(Debug, Clone, Copy, PartialEq, Eq, Structural)]
pub struct RpcRequestBlockHeight {
    pub commitment: Commitment,
}

impl RpcRequestBlockHeight {
    /// The request that the parameters come to.
    pub fn parse(slots: &StoredSlots, config: Option<RpcContextConfig>) -> (r: Result<
        RpcRequestBlockHeight,
        Reply,
    >)
        ensures
            ({
                let config = params::context_or_default(config);
                let commitment = state::commitment_or_default(config.commitment);
                r == match state::context_checked(config.min_context_slot, commitment, *slots) {
                    Err(error) => Err(Reply::Custom(error)),
                    Ok(_) => Ok(RpcRequestBlockHeight { commitment }),
                }
            }),
    {
        let config: RpcContextConfig = params::unwrap_context(config);
        let commitment: Commitment = state::unwrap_commitment(config.commitment);
        match state::min_context_check(config.min_context_slot, commitment, slots) {
            Err(error) => Err(Reply::Custom(error)),
            Ok(_) => Ok(RpcRequestBlockHeight { commitment }),
        }
    }

    /// What the request does first: asks the storage.
    pub fn start(&self) -> (r: Action)
        ensures
            r == Action::Read(ReadRequest::BlockHeight { commitment: self.commitment }),
    {
        Action::Read(ReadRequest::BlockHeight { commitment: self.commitment })
    }

    /// What the request does with the height.
    pub fn on_read(&self, read: Read<ReadResultBlockHeight>) -> (r: Action)
        ensures
            r == (match action::received_of(read) {
                Err(failure) => Action::Fail(failure),
                Ok(height) => Action::Reply(Reply::Success(Payload::Number(height.block_height))),
            }),
    {
        match action::received(read) {
            Err(failure) => Action::Fail(failure),
            Ok(height) => Action::Reply(Reply::Success(Payload::Number(height.block_height))),
        }
    }
}

// ------------------------------------------------------- getBlocks and getBlocksWithLimit

/// The largest number of slots, and of blocks, that may be asked for.
pub const MAX_GET_CONFIRMED_BLOCKS_RANGE: u64 = 500_000;

/// How close to the end of the window that the storage keeps a list of blocks
/// may start: slots further down may be gone before the storage is asked.
pub const BLOCKS_MARGIN: u64 = 32;

/// A list of blocks, or the end of one, as older clients give only that.
#[derive(Debug, Clone, Copy, PartialEq, Eq, Structural)]
pub enum RpcBlocksConfigWrapper {
    EndSlotOnly(Option<u64>),
    ConfigOnly(Option<RpcContextConfig>),
}

/// A request for a list of blocks.
#[derive(Debug, Clone, Copy, PartialEq, Eq, Structural)]
pub struct RpcRequestBlocks {
    pub upstream_disabled: bool,
    pub start_slot: u64,
    pub until: RpcRequestBlocksUntil,
    pub commitment: Commitment,
}

/// The end slot that a request gives.
pub open spec fn given_end_slot(wrapper: Option<RpcBlocksConfigWrapper>) -> Option<u64> {
    match wrapper {
        Some(RpcBlocksConfigWrapper::EndSlotOnly(end_slot)) => end_slot,
        _ => None,
    }
}

/// The options that a request gives: those at the end, or those in place of
/// an end slot.
pub open spec fn given_config(
    wrapper: Option<RpcBlocksConfigWrapper>,
    config: Option<RpcContextConfig>,
) -> RpcContextConfig {
    match (config, wrapper) {
        (Some(config), _) => config,
        (None, Some(RpcBlocksConfigWrapper::ConfigOnly(Some(config)))) => config,
        _ => RpcContextConfig::unset(),
    }
}

/// Why a list of blocks is refused, by its options: the commitment is too low,
/// or finalized blocks are asked of a node that has not finalized a slot.
pub open spec fn blocks_refused(config: RpcContextConfig, slots: StoredSlots) -> Option<ReplyView> {
    let commitment = state::commitment_or_default(config.commitment);
    if !commitment.at_least_confirmed() {
        Some(ReplyView::InvalidParams(InvalidParams::CommitmentBelowConfirmed))
    } else if commitment == Commitment::Finalized && (config.min_context_slot matches Some(min)
        && slots.finalized < min) {
        Some(
            ReplyView::Custom(
                RpcCustomError::MinContextSlotNotReached { context_slot: slots.finalized },
            ),
        )
    } else {
        None
    }
}

/// Why a list of blocks is refused, by its options.
fn check_blocks_config(config: RpcContextConfig, slots: &StoredSlots) -> (r: Result<Commitment, Reply>)
    ensures
        match r {
            Ok(commitment) => {
                &&& blocks_refused(config, *slots) is None
                &&& commitment == state::commitment_or_default(config.commitment)
            },
            Err(reply) => blocks_refused(config, *slots) == Some(reply@),
        },
{
    let commitment: Commitment = state::unwrap_commitment(config.commitment);
    if let Err(error) = state::check_is_at_least_confirmed(commitment) {
        return Err(Reply::InvalidParams(error));
    }
    let min_context_slot: u64 = match config.min_context_slot {
        Some(min) => min,
        None => 0,
    };
    if commitment == Commitment::Finalized && slots.finalized < min_context_slot {
        return Err(
            Reply::Custom(
                RpcCustomError::MinContextSlotNotReached { context_slot: slots.finalized },
            ),
        );
    }
    Ok(commitment)
}

/// The last slot that is looked at: the one that the request gives, or as many
/// slots on as may be asked for, but none beyond the newest one.
pub open spec fn last_slot(start_slot: u64, end_slot: Option<u64>, tip: u64) -> u64 {
    let asked = match end_slot {
        Some(end_slot) => end_slot as int,
        None => start_slot + MAX_GET_CONFIRMED_BLOCKS_RANGE,
    };
    if asked <= tip {
        asked as u64
    } else {
        tip
    }
}

impl RpcRequestBlocks {
    /// What comes of the parameters: a request, or the reply that is given at
    /// once. A range that ends before it starts holds no blocks.
    pub open spec fn parsed(
        slots: StoredSlots,
        upstream_disabled: bool,
        start_slot: u64,
        end_slot: Option<u64>,
        config: RpcContextConfig,
    ) -> Result<RpcRequestBlocks, ReplyView> {
        let commitment = state::commitment_or_default(config.commitment);
        let last = last_slot(start_slot, end_slot, slots.tip(commitment));
        if let Some(reply) = blocks_refused(config, slots) {
            Err(reply)
        } else if last < start_slot {
            Err(ReplyView::Success(PayloadView::Slots(Seq::empty())))
        } else if last - start_slot > MAX_GET_CONFIRMED_BLOCKS_RANGE {
            Err(
                ReplyView::InvalidParams(
                    InvalidParams::SlotRangeTooLarge { max: MAX_GET_CONFIRMED_BLOCKS_RANGE },
                ),
            )
        } else {
            Ok(
                RpcRequestBlocks {
                    upstream_disabled,
                    start_slot,
                    until: RpcRequestBlocksUntil::EndSlot(last),
                    commitment,
                },
            )
        }
    }

    /// The request that the parameters come to.
    pub fn parse(
        slots: &StoredSlots,
        upstream_disabled: bool,
        start_slot: u64,
        wrapper: Option<RpcBlocksConfigWrapper>,
        config: Option<RpcContextConfig>,
    ) -> (r: Result<RpcRequestBlocks, Reply>)
        ensures
            ({
                let parsed = RpcRequestBlocks::parsed(
                    *slots,
                    upstream_disabled,
                    start_slot,
                    given_end_slot(wrapper),
                    given_config(wrapper, config),
                );
                match r {
                    Ok(request) => parsed == Ok::<RpcRequestBlocks, ReplyView>(request),
                    Err(reply) => parsed == Err::<RpcRequestBlocks, ReplyView>(reply@),
                }
            }),
    {
        let (end_slot, maybe_config): (Option<u64>, Option<RpcContextConfig>) = match wrapper {
            Some(RpcBlocksConfigWrapper::EndSlotOnly(end_slot)) => (end_slot, None),
            Some(RpcBlocksConfigWrapper::ConfigOnly(config)) => (None, config),
            None => (None, None),
        };
        let config: RpcContextConfig = match config {
            Some(config) => config,
            None => params::unwrap_context(maybe_config),
        };
        let commitment: Commitment = match check_blocks_config(config, slots) {
            Ok(commitment) => commitment,
            Err(reply) => {
                return Err(reply);
            },
        };
        let asked: u64 = match end_slot {
            Some(end_slot) => end_slot,
            None => start_slot.saturating_add(MAX_GET_CONFIRMED_BLOCKS_RANGE),
        };
        let tip: u64 = slots.load(commitment);
        let last: u64 = if asked <= tip {
            asked
        } else {
            tip
        };
        if last < start_slot {
            let none: Vec<u64> = Vec::new();
            assert(none@ =~= Seq::<u64>::empty());
            return Err(Reply::Success(Payload::Slots(none)));
        }
        if last - start_slot > MAX_GET_CONFIRMED_BLOCKS_RANGE {
            return Err(
                Reply::InvalidParams(
                    InvalidParams::SlotRangeTooLarge { max: MAX_GET_CONFIRMED_BLOCKS_RANGE },
                ),
            );
        }
        Ok(
            RpcRequestBlocks {
                upstream_disabled,
                start_slot,
                until: RpcRequestBlocksUntil::EndSlot(last),
                commitment,
            },
        )
    }

    /// What the request does first: asks the storage, or another node where
    /// the storage may not have the first blocks.
    pub open spec fn first_action(self, state: State, slots: StoredSlots) -> Action {
        let upstream = state.allowed_upstream(self.upstream_disabled, ConfigRpcCallJson::GetBlocks);
        if self.start_slot < slots.first_available + BLOCKS_MARGIN && upstream is Some {
            Action::Upstream {
                index: upstream->0,
                call: UpstreamCall::Blocks {
                    start_slot: self.start_slot,
                    until: self.until,
                    commitment: self.commitment,
                },
                reason: Reason::BelowRetention,
            }
        } else {
            Action::Read(
                ReadRequest::Blocks {
                    start_slot: self.start_slot,
                    until: self.until,
                    commitment: self.commitment,
                },
            )
        }
    }

    /// What the request does first: asks the storage, or another node where
    /// the storage may not have the first blocks.
    pub fn start(&self, state: &State, slots: &StoredSlots) -> (r: Action)
        requires
            slots.first_available + BLOCKS_MARGIN <= u64::MAX,
        ensures
            r == self.first_action(*state, *slots),
    {
        let first_available_slot: u64 = slots.first_available + BLOCKS_MARGIN;
        if self.start_slot < first_available_slot {
            if let Some(index) = state.get_allowed_upstream(
                self.upstream_disabled,
                ConfigRpcCallJson::GetBlocks,
            ) {
                return Action::Upstream {
                    index,
                    call: UpstreamCall::Blocks {
                        start_slot: self.start_slot,
                        until: self.until,
                        commitment: self.commitment,
                    },
                    reason: Reason::BelowRetention,
                };
            }
        }
        Action::Read(
            ReadRequest::Blocks {
                start_slot: self.start_slot,
                until: self.until,
                commitment: self.commitment,
            },
        )
    }

    /// What the request does with the blocks that the storage has.
    pub fn on_read(&self, slots: &StoredSlots, read: Read<ReadResultBlocks>) -> (r: Action)
        ensures
            r == (match action::received_of(read) {
                Err(failure) => Action::Fail(failure),
                Ok(ReadResultBlocks::Blocks(blocks)) => Action::Reply(
                    Reply::Success(Payload::Slots(blocks)),
                ),
                Ok(ReadResultBlocks::Removed) => Action::Reply(
                    Reply::Custom(
                        RpcCustomError::BlockCleanedUp {
                            slot: self.start_slot,
                            first_available_block: slots.first_available,
                        },
                    ),
                ),
            }),
    {
        match action::received(read) {
            Err(failure) => Action::Fail(failure),
            Ok(ReadResultBlocks::Blocks(blocks)) => Action::Reply(
                Reply::Success(Payload::Slots(blocks)),
            ),
            Ok(ReadResultBlocks::Removed) => Action::Reply(
                Reply::Custom(
                    RpcCustomError::BlockCleanedUp {
                        slot: self.start_slot,
                        first_available_block: slots.first_available,
                    },
                ),
            ),
        }
    }
}

/// A request for a list of blocks that is accepted looks at no more slots than
/// may be asked for, and at none beyond the newest one.
pub proof fn law_range_is_bounded(
    slots: StoredSlots,
    upstream_disabled: bool,
    start_slot: u64,
    end_slot: Option<u64>,
    config: RpcContextConfig,
)
    ensures
        RpcRequestBlocks::parsed(slots, upstream_disabled, start_slot, end_slot, config) matches Ok(
            request,
        ) ==> {
            &&& request.until matches RpcRequestBlocksUntil::EndSlot(last)
            &&& request.start_slot <= last <= slots.tip(request.commitment)
            &&& last - request.start_slot <= MAX_GET_CONFIRMED_BLOCKS_RANGE
            &&& request.commitment.at_least_confirmed()
        },
{
}

/// A request that forbids it asks no other node for a list of blocks.
pub proof fn law_disabled_blocks_ask_no_upstream(
    request: RpcRequestBlocks,
    state: State,
    slots: StoredSlots,
)
    requires
        request.upstream_disabled,
    ensures
        !(request.first_action(state, slots) is Upstream),
{
}

/// A request for a number of blocks.
#[derive(Debug, Clone, Copy, PartialEq, Eq, Structural)]
pub struct RpcRequestBlocksWithLimit {
    pub upstream_disabled: bool,
    pub start_slot: u64,
    pub until: RpcRequestBlocksUntil,
    pub commitment: Commitment,
}

impl RpcRequestBlocksWithLimit {
    /// What comes of the parameters: a request, or the reply that is given at
    /// once.
    pub open spec fn parsed(
        slots: StoredSlots,
        upstream_disabled: bool,
        start_slot: u64,
        limit: usize,
        config: RpcContextConfig,
    ) -> Result<RpcRequestBlocksWithLimit, ReplyView> {
        if let Some(reply) = blocks_refused(config, slots) {
            Err(reply)
        } else if limit == 0 {
            Err(ReplyView::Success(PayloadView::Slots(Seq::empty())))
        } else if limit > MAX_GET_CONFIRMED_BLOCKS_RANGE {
            Err(
                ReplyView::InvalidParams(
                    InvalidParams::LimitTooLarge { max: MAX_GET_CONFIRMED_BLOCKS_RANGE },
                ),
            )
        } else {
            Ok(
                RpcRequestBlocksWithLimit {
                    upstream_disabled,
                    start_slot,
                    until: RpcRequestBlocksUntil::Limit(limit),
                    commitment: state::commitment_or_default(config.commitment),
                },
            )
        }
    }

    /// The request that the parameters come to.
    pub fn parse(
        slots: &StoredSlots,
        upstream_disabled: bool,
        start_slot: u64,
        limit: usize,
        config: Option<RpcContextConfig>,
    ) -> (r: Result<RpcRequestBlocksWithLimit, Reply>)
        ensures
            ({
                let parsed = RpcRequestBlocksWithLimit::parsed(
                    *slots,
                    upstream_disabled,
                    start_slot,
                    limit,
                    params::context_or_default(config),
                );
                match r {
                    Ok(request) => parsed == Ok::<RpcRequestBlocksWithLimit, ReplyView>(request),
                    Err(reply) => parsed == Err::<RpcRequestBlocksWithLimit, ReplyView>(reply@),
                }
            }),
    {
        let config: RpcContextConfig = params::unwrap_context(config);
        let commitment: Commitment = match check_blocks_config(config, slots) {
            Ok(commitment) => commitment,
            Err(reply) => {
                return Err(reply);
            },
        };
        if limit == 0 {
            let none: Vec<u64> = Vec::new();
            assert(none@ =~= Seq::<u64>::empty());
            return Err(Reply::Success(Payload::Slots(none)));
        }
        if limit as u64 > MAX_GET_CONFIRMED_BLOCKS_RANGE {
            return Err(
                Reply::InvalidParams(
                    InvalidParams::LimitTooLarge { max: MAX_GET_CONFIRMED_BLOCKS_RANGE },
                ),
            );
        }
        Ok(
            RpcRequestBlocksWithLimit {
                upstream_disabled,
                start_slot,
                until: RpcRequestBlocksUntil::Limit(limit),
                commitment,
            },
        )
    }

    /// The request for a list of blocks that it is processed as.
    pub fn into_blocks(self) -> (r: RpcRequestBlocks)
        ensures
            r == (RpcRequestBlocks {
                upstream_disabled: self.upstream_disabled,
                start_slot: self.start_slot,
                until: self.until,
                commitment: self.commitment,
            }),
    {
        RpcRequestBlocks {
            upstream_disabled: self.upstream_disabled,
            start_slot: self.start_slot,
            until: self.until,
            commitment: self.commitment,
        }
    }
}

// ------------------------------------------------------- getBlockTime

/// When the cluster started, in seconds since the Unix epoch: the time of the
/// block in slot zero.
pub const GENESIS_TIME: i64 = 1_584_368_940;

/// A request for the time of a block.
#[derive(Debug, Clone, Copy, PartialEq, Eq, Structural)]
pub struct RpcRequestBlockTime {
    pub upstream_disabled: bool,
    pub slot: u64,
}

impl RpcRequestBlockTime {
    /// The request that the parameters come to. The time of slot zero is known.
    pub fn parse(upstream_disabled: bool, slot: u64) -> (r: Result<RpcRequestBlockTime, Reply>)
        ensures
            r == (if slot == 0 {
                Err(Reply::Success(Payload::Timestamp(GENESIS_TIME)))
            } else {
                Ok(RpcRequestBlockTime { upstream_disabled, slot })
            }),
    {
        if slot == 0 {
            Err(Reply::Success(Payload::Timestamp(GENESIS_TIME)))
        } else {
            Ok(RpcRequestBlockTime { upstream_disabled, slot })
        }
    }

    /// What the request does first: asks the storage.
    pub fn start(&self) -> (r: Action)
        ensures
            r == Action::Read(ReadRequest::BlockTime { slot: self.slot }),
    {
        Action::Read(ReadRequest::BlockTime { slot: self.slot })
    }

    /// Where the time of a block comes from that the storage does not have.
    pub open spec fn upstream_action(self, state: State, slots: StoredSlots, reason: Reason) -> Action {
        match state.allowed_upstream(self.upstream_disabled, ConfigRpcCallJson::GetBlockTime) {
            Some(index) => Action::Upstream {
                index,
                call: UpstreamCall::BlockTime { slot: self.slot },
                reason,
            },
            None => Action::Reply(
                Reply::Custom(
                    RpcCustomError::BlockCleanedUp {
                        slot: self.slot,
                        first_available_block: slots.first_available,
                    },
                ),
            ),
        }
    }

    /// Asks another node for the time of the block, where there is one.
    pub fn fetch_upstream(&self, state: &State, slots: &StoredSlots, reason: Reason) -> (r: Action)
        ensures
            r == self.upstream_action(*state, *slots, reason),
    {
        match state.get_allowed_upstream(self.upstream_disabled, ConfigRpcCallJson::GetBlockTime) {
            Some(index) => Action::Upstream {
                index,
                call: UpstreamCall::BlockTime { slot: self.slot },
                reason,
            },
            None => Action::Reply(
                Reply::Custom(
                    RpcCustomError::BlockCleanedUp {
                        slot: self.slot,
                        first_available_block: slots.first_available,
                    },
                ),
            ),
        }
    }

    /// What the request does with the time that the storage has.
    pub open spec fn next_action(
        self,
        state: State,
        slots: StoredSlots,
        read: Read<ReadResultBlockTime>,
    ) -> Action {
        match action::received_of(read) {
            Err(failure) => Action::Fail(failure),
            Ok(ReadResultBlockTime::Removed) => self.upstream_action(
                state,
                slots,
                Reason::Removed,
            ),
            Ok(ReadResultBlockTime::Dead) => Action::Reply(
                Reply::Custom(RpcCustomError::SlotSkipped { slot: self.slot }),
            ),
            Ok(ReadResultBlockTime::NotAvailable) => Action::Reply(
                Reply::Custom(RpcCustomError::BlockNotAvailable { slot: self.slot }),
            ),
            Ok(ReadResultBlockTime::BlockTime(Some(time))) => Action::Reply(
                Reply::Success(Payload::Timestamp(time)),
            ),
            Ok(ReadResultBlockTime::BlockTime(None)) => Action::Reply(
                Reply::Success(Payload::Null),
            ),
        }
    }

    /// What the request does with the time that the storage has.
    pub fn on_read(&self, state: &State, slots: &StoredSlots, read: Read<ReadResultBlockTime>) -> (r: Action)
        ensures
            r == self.next_action(*state, *slots, read),
    {
        match action::received(read) {
            Err(failure) => Action::Fail(failure),
            Ok(ReadResultBlockTime::Removed) => self.fetch_upstream(
                state,
                slots,
                Reason::Removed,
            ),
            Ok(ReadResultBlockTime::Dead) => Action::Reply(
                Reply::Custom(RpcCustomError::SlotSkipped { slot: self.slot }),
            ),
            Ok(ReadResultBlockTime::NotAvailable) => Action::Reply(
                Reply::Custom(RpcCustomError::BlockNotAvailable { slot: self.slot }),
            ),
            Ok(ReadResultBlockTime::BlockTime(Some(time))) => Action::Reply(
                Reply::Success(Payload::Timestamp(time)),
            ),
            Ok(ReadResultBlockTime::BlockTime(None)) => Action::Reply(
                Reply::Success(Payload::Null),
            ),
        }
    }
}

/// A request that forbids it asks no other node for the time of a block.
pub proof fn law_disabled_block_time_asks_no_upstream(
    request: RpcRequestBlockTime,
    state: State,
    slots: StoredSlots,
    read: Read<ReadResultBlockTime>,
)
    requires
        request.upstream_disabled,
    ensures
        !(request.next_action(state, slots, read) is Upstream),
{
}

} // verus!
