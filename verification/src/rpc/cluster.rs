//! The requests about the node and the cluster: `getClusterNodes`,
//! `getFirstAvailableBlock`, `getHealth`, `getLatestBlockhash`,
//! `getLeaderSchedule`, `getRecentPrioritizationFees`, `getSlot`, `getVersion`
//! and `isBlockhashValid`.

use crate::rpc::action::{self, Action, Read, ReadRequest, Reason, UpstreamCall};
use crate::rpc::jsonrpc::{
    self, InvalidParams, Payload, PayloadView, Reply, ReplyView, RpcCustomError,
    RpcPrioritizationFee,
};
use crate::rpc::keys::{self, Blockhash, ParseError, Pubkey};
use crate::rpc::params::{self, RpcContextConfig};
use crate::rpc::state::{self, Commitment, ConfigRpcCallJson, State, StoredSlots};
use vstd::prelude::*;

verus! {

// ------------------------------------------------------- getClusterNodes

/// A request for the nodes of the cluster.
#[derive(Debug, Clone, Copy, PartialEq, Eq, Structural)]
pub struct RpcRequestClusterNodes;

impl RpcRequestClusterNodes {
    /// The request that the parameters come to: there should be none.
    pub fn parse(request_params: Option<&str>) -> (r: Result<RpcRequestClusterNodes, Reply>)
        ensures
            match jsonrpc::unexpected_params(request_params) {
                None => r is Ok,
                Some(refusal) => r matches Err(reply) && reply@ == ReplyView::UnexpectedParams(
                    refusal,
                ),
            },
    {
        match jsonrpc::no_params_expected(request_params) {
            Ok(()) => Ok(RpcRequestClusterNodes),
            Err(reply) => Err(reply),
        }
    }

    /// What the request does: asks another node.
    pub fn start(&self, state: &State) -> (r: Action)
        requires
            state.upstream(ConfigRpcCallJson::GetClusterNodes) is Some,
        ensures
            r == (Action::Upstream {
                index: state.upstream(ConfigRpcCallJson::GetClusterNodes)->0,
                call: UpstreamCall::ClusterNodes,
                reason: Reason::Always,
            }),
    {
        let index: usize = match state.get_upstream(ConfigRpcCallJson::GetClusterNodes) {
            Some(index) => index,
            None => 0,
        };
        Action::Upstream { index, call: UpstreamCall::ClusterNodes, reason: Reason::Always }
    }
}

// ------------------------------------------------------- getFirstAvailableBlock

/// A request for the first available block.
#[derive(Debug, Clone, Copy, PartialEq, Eq, Structural)]
pub struct RpcRequestFirstAvailableBlock {
    pub upstream_disabled: bool,
}

impl RpcRequestFirstAvailableBlock {
    /// The request that the parameters come to: there should be none.
    pub fn parse(upstream_disabled: bool, request_params: Option<&str>) -> (r: Result<
        RpcRequestFirstAvailableBlock,
        Reply,
    >)
        ensures
            match jsonrpc::unexpected_params(request_params) {
                None => r == Ok::<RpcRequestFirstAvailableBlock, Reply>(
                    RpcRequestFirstAvailableBlock { upstream_disabled },
                ),
                Some(refusal) => r matches Err(reply) && reply@ == ReplyView::UnexpectedParams(
                    refusal,
                ),
            },
    {
        match jsonrpc::no_params_expected(request_params) {
            Ok(()) => Ok(RpcRequestFirstAvailableBlock { upstream_disabled }),
            Err(reply) => Err(reply),
        }
    }

    /// What the request does: asks another node, or replies with the first
    /// slot that is stored where there is none.
    pub fn start(&self, state: &State, slots: &StoredSlots) -> (r: Action)
        ensures
            r == (match state.allowed_upstream(
                self.upstream_disabled,
                ConfigRpcCallJson::GetFirstAvailableBlock,
            ) {
                Some(index) => Action::Upstream {
                    index,
                    call: UpstreamCall::FirstAvailableBlock,
                    reason: Reason::Always,
                },
                None => Action::Reply(Reply::Success(Payload::Number(slots.first_available))),
            }),
    {
        match state.get_allowed_upstream(
            self.upstream_disabled,
            ConfigRpcCallJson::GetFirstAvailableBlock,
        ) {
            Some(index) => Action::Upstream {
                index,
                call: UpstreamCall::FirstAvailableBlock,
                reason: Reason::Always,
            },
            None => Action::Reply(Reply::Success(Payload::Number(slots.first_available))),
        }
    }
}

// ------------------------------------------------------- getHealth

/// Whether the node is healthy: it is not switched off, and no more slots
/// behind the cluster than allowed. Slot zero stands for an unknown slot of
/// the cluster. Where it is not, the number of slots that it is behind.
pub open spec fn health(
    health_disabled: bool,
    cluster_slot: u64,
    local_slot: u64,
    slot_distance: u64,
) -> Result<(), Option<u64>> {
    if health_disabled {
        Err(None)
    } else if cluster_slot == 0 || cluster_slot - slot_distance <= local_slot {
        Ok(())
    } else {
        Err(Some((cluster_slot - local_slot) as u64))
    }
}

/// A request for the health of the node.
#[derive(Debug, Clone, Copy, PartialEq, Eq, Structural)]
pub struct RpcRequestHealth;

impl RpcRequestHealth {
    /// The reply to the request, which should have no parameters.
    pub fn parse(
        state: &State,
        slots: &StoredSlots,
        health_disabled: bool,
        cluster_slot: u64,
        request_params: Option<&str>,
    ) -> (r: Reply)
        ensures
            r@ == (match jsonrpc::unexpected_params(request_params) {
                Some(refusal) => ReplyView::UnexpectedParams(refusal),
                None => match health(
                    health_disabled,
                    cluster_slot,
                    slots.processed,
                    state.health_check_slot_distance,
                ) {
                    Ok(()) => ReplyView::Success(PayloadView::Text("ok"@)),
                    Err(num_slots_behind) => ReplyView::Custom(
                        RpcCustomError::NodeUnhealthy { num_slots_behind },
                    ),
                },
            }),
    {
        if let Err(reply) = jsonrpc::no_params_expected(request_params) {
            return reply;
        }
        if health_disabled {
            return Reply::Custom(RpcCustomError::NodeUnhealthy { num_slots_behind: None });
        }
        let allowed: u64 = if cluster_slot > state.health_check_slot_distance {
            cluster_slot - state.health_check_slot_distance
        } else {
            0
        };
        if cluster_slot == 0 || slots.processed >= allowed {
            Reply::Success(Payload::Text(String::from_str("ok")))
        } else {
            Reply::Custom(
                RpcCustomError::NodeUnhealthy {
                    num_slots_behind: Some(cluster_slot - slots.processed),
                },
            )
        }
    }
}

/// A node that is reported as unhealthy is behind the cluster by more slots
/// than allowed.
pub proof fn law_unhealthy_is_far_behind(
    cluster_slot: u64,
    local_slot: u64,
    slot_distance: u64,
)
    ensures
        health(false, cluster_slot, local_slot, slot_distance) matches Err(behind) ==> behind
            matches Some(n) && n > slot_distance && local_slot + n == cluster_slot,
{
}

// ------------------------------------------------------- getLatestBlockhash

/// The newest block hash that the storage has.
#[derive(Debug)]
pub struct ReadResultLatestBlockhash {
    pub slot: u64,
    pub blockhash: String,
    pub last_valid_block_height: u64,
}

/// A request for the newest block hash.
#[derive(Debug, Clone, Copy, PartialEq, Eq, Structural)]
pub struct RpcRequestLatestBlockhash {
    pub commitment: Commitment,
}

impl RpcRequestLatestBlockhash {
    /// The request that the parameters come to.
    pub fn parse(slots: &StoredSlots, config: Option<RpcContextConfig>) -> (r: Result<
        RpcRequestLatestBlockhash,
        Reply,
    >)
        ensures
            ({
                let config = params::context_or_default(config);
                let commitment = state::commitment_or_default(config.commitment);
                r == match state::context_checked(config.min_context_slot, commitment, *slots) {
                    Err(error) => Err(Reply::Custom(error)),
                    Ok(_) => Ok(RpcRequestLatestBlockhash { commitment }),
                }
            }),
    {
        let config: RpcContextConfig = params::unwrap_context(config);
        let commitment: Commitment = state::unwrap_commitment(config.commitment);
        match state::min_context_check(config.min_context_slot, commitment, slots) {
            Err(error) => Err(Reply::Custom(error)),
            Ok(_) => Ok(RpcRequestLatestBlockhash { commitment }),
        }
    }

    /// What the request does first: asks the storage.
    pub fn start(&self) -> (r: Action)
        ensures
            r == Action::Read(ReadRequest::LatestBlockhash { commitment: self.commitment }),
    {
        Action::Read(ReadRequest::LatestBlockhash { commitment: self.commitment })
    }

    /// What the request does with the block hash.
    pub fn on_read(&self, read: Read<ReadResultLatestBlockhash>) -> (r: Action)
        ensures
            r == (match action::received_of(read) {
                Err(failure) => Action::Fail(failure),
                Ok(latest) => Action::Reply(
                    Reply::Success(
                        Payload::Blockhash {
                            slot: latest.slot,
                            blockhash: latest.blockhash,
                            last_valid_block_height: latest.last_valid_block_height,
                        },
                    ),
                ),
            }),
    {
        match action::received(read) {
            Err(failure) => Action::Fail(failure),
            Ok(latest) => Action::Reply(
                Reply::Success(
                    Payload::Blockhash {
                        slot: latest.slot,
                        blockhash: latest.blockhash,
                        last_valid_block_height: latest.last_valid_block_height,
                    },
                ),
            ),
        }
    }
}

// ------------------------------------------------------- getLeaderSchedule

/// The options of a request for the leader schedule.
#[derive(Debug)]
pub struct RpcLeaderScheduleConfig {
    pub identity: Option<String>,
    pub commitment: Option<Commitment>,
}

/// A slot, or options in its place.
#[derive(Debug)]
pub enum RpcLeaderScheduleConfigWrapper {
    SlotOnly(Option<u64>),
    ConfigOnly(Option<RpcLeaderScheduleConfig>),
}

/// A request for the leader schedule.
#[derive(Debug)]
pub struct RpcRequestLeaderSchedule {
    pub slot: u64,
    pub is_processed: bool,
    pub identity: Option<String>,
}

/// The slot that a request gives.
pub open spec fn schedule_slot(options: Option<RpcLeaderScheduleConfigWrapper>) -> Option<u64> {
    match options {
        Some(RpcLeaderScheduleConfigWrapper::SlotOnly(slot)) => slot,
        _ => None,
    }
}

/// The options that a request gives: those in place of a slot, or those behind
/// it.
pub open spec fn schedule_config(
    options: Option<RpcLeaderScheduleConfigWrapper>,
    config: Option<RpcLeaderScheduleConfig>,
) -> RpcLeaderScheduleConfig {
    match (options, config) {
        (Some(RpcLeaderScheduleConfigWrapper::ConfigOnly(Some(config))), _) => config,
        (_, Some(config)) => config,
        _ => RpcLeaderScheduleConfig { identity: None, commitment: None },
    }
}

impl RpcRequestLeaderSchedule {
    /// What comes of the parameters, given what came of reading the identity:
    /// a request, or the reply that is given at once. A slot beyond the newest
    /// one has no schedule.
    pub open spec fn parsed(
        slots: StoredSlots,
        slot: Option<u64>,
        config: RpcLeaderScheduleConfig,
        identity: Option<Result<Pubkey, ParseError>>,
    ) -> Result<RpcRequestLeaderSchedule, Reply> {
        if let Some(Err(error)) = identity {
            Err(Reply::InvalidParams(InvalidParams::InvalidParam(error)))
        } else {
            match slot {
                Some(slot) => if slot > slots.processed {
                    Err(Reply::Success(Payload::Null))
                } else {
                    Ok(
                        RpcRequestLeaderSchedule {
                            slot,
                            is_processed: slot > slots.confirmed,
                            identity: config.identity,
                        },
                    )
                },
                None => {
                    let commitment = state::commitment_or_default(config.commitment);
                    Ok(
                        RpcRequestLeaderSchedule {
                            slot: slots.tip(commitment),
                            is_processed: commitment == Commitment::Processed,
                            identity: config.identity,
                        },
                    )
                },
            }
        }
    }

    /// The request that the parameters come to, given what came of reading
    /// the identity.
    pub fn parse_with(
        slots: &StoredSlots,
        slot: Option<u64>,
        config: RpcLeaderScheduleConfig,
        identity: Option<Result<Pubkey, ParseError>>,
    ) -> (r: Result<RpcRequestLeaderSchedule, Reply>)
        ensures
            r == RpcRequestLeaderSchedule::parsed(*slots, slot, config, identity),
    {
        if let Some(Err(error)) = identity {
            return Err(Reply::InvalidParams(InvalidParams::InvalidParam(error)));
        }
        match slot {
            Some(slot) => {
                if slot > slots.processed {
                    return Err(Reply::Success(Payload::Null));
                }
                Ok(
                    RpcRequestLeaderSchedule {
                        slot,
                        is_processed: slot > slots.confirmed,
                        identity: config.identity,
                    },
                )
            },
            None => {
                let commitment: Commitment = state::unwrap_commitment(config.commitment);
                Ok(
                    RpcRequestLeaderSchedule {
                        slot: slots.load(commitment),
                        is_processed: commitment == Commitment::Processed,
                        identity: config.identity,
                    },
                )
            },
        }
    }

    /// The request that the parameters come to.
    pub fn parse(
        slots: &StoredSlots,
        options: Option<RpcLeaderScheduleConfigWrapper>,
        config: Option<RpcLeaderScheduleConfig>,
    ) -> (r: Result<RpcRequestLeaderSchedule, Reply>)
        ensures
            ({
                let given = schedule_config(options, config);
                r == RpcRequestLeaderSchedule::parsed(
                    *slots,
                    schedule_slot(options),
                    given,
                    match given.identity {
                        Some(identity) => Some(keys::pubkey_of(identity@)),
                        None => None,
                    },
                )
            }),
    {
        let (slot, maybe_config): (Option<u64>, Option<RpcLeaderScheduleConfig>) = match options {
            Some(RpcLeaderScheduleConfigWrapper::SlotOnly(slot)) => (slot, None),
            Some(RpcLeaderScheduleConfigWrapper::ConfigOnly(config)) => (None, config),
            None => (None, None),
        };
        let config: RpcLeaderScheduleConfig = match maybe_config {
            Some(config) => config,
            None => match config {
                Some(config) => config,
                None => RpcLeaderScheduleConfig { identity: None, commitment: None },
            },
        };
        let identity: Option<Result<Pubkey, ParseError>> = match &config.identity {
            Some(identity) => Some(keys::parse_pubkey(identity.as_str())),
            None => None,
        };
        RpcRequestLeaderSchedule::parse_with(slots, slot, config, identity)
    }

    /// What the request does: asks another node for the schedule of the epoch
    /// of the slot.
    pub fn start(self, state: &State) -> (r: Action)
        requires
            state.upstream(ConfigRpcCallJson::GetLeaderSchedule) is Some,
        ensures
            r == (Action::Upstream {
                index: state.upstream(ConfigRpcCallJson::GetLeaderSchedule)->0,
                call: UpstreamCall::LeaderSchedule {
                    epoch: keys::epoch_of(self.slot),
                    slot: self.slot,
                    is_processed: self.is_processed,
                    identity: self.identity,
                },
                reason: Reason::Always,
            }),
    {
        let index: usize = match state.get_upstream(ConfigRpcCallJson::GetLeaderSchedule) {
            Some(index) => index,
            None => 0,
        };
        Action::Upstream {
            index,
            call: UpstreamCall::LeaderSchedule {
                epoch: keys::get_epoch(self.slot),
                slot: self.slot,
                is_processed: self.is_processed,
                identity: self.identity,
            },
            reason: Reason::Always,
        }
    }
}

// ------------------------------------------------------- getRecentPrioritizationFees

/// The largest number of addresses that may be given.
pub const MAX_TX_ACCOUNT_LOCKS: usize = 128;

/// The largest percentile, in basis points.
pub const MAX_PERCENTILE: u16 = 10_000;

/// The options of a request for the recent prioritization fees.
#[derive(Debug, Clone, Copy, PartialEq, Eq, Structural)]
pub struct RpcRecentPrioritizationFeesConfig {
    pub percentile: Option<u16>,
}

/// A request for the recent prioritization fees.
#[derive(Debug)]
pub struct RpcRequestRecentPrioritizationFees {
    pub pubkeys: Vec<Pubkey>,
    pub percentile: Option<u16>,
}

/// The percentile that a request asks for: none where the configuration does
/// not allow percentiles.
pub open spec fn asked_percentile(state: State, config: Option<RpcRecentPrioritizationFeesConfig>) -> Option<
    u16,
> {
    match config {
        Some(config) => if state.grpf_percentile {
            config.percentile
        } else {
            None
        },
        None => None,
    }
}

/// Whether a percentile is above the largest one.
pub open spec fn percentile_too_big(percentile: Option<u16>) -> bool {
    percentile matches Some(percentile) && percentile > MAX_PERCENTILE
}

impl RpcRequestRecentPrioritizationFees {
    /// The request that the parameters come to, given how many addresses there
    /// are and what came of reading them.
    pub fn parse_with(
        state: &State,
        given: usize,
        pubkeys: Result<Vec<Pubkey>, ParseError>,
        config: Option<RpcRecentPrioritizationFeesConfig>,
    ) -> (r: Result<RpcRequestRecentPrioritizationFees, Reply>)
        ensures
            ({
                let percentile = asked_percentile(*state, config);
                r == if given > MAX_TX_ACCOUNT_LOCKS {
                    Err(
                        Reply::InvalidParams(
                            InvalidParams::TooManyInputs { max: MAX_TX_ACCOUNT_LOCKS },
                        ),
                    )
                } else if let Err(error) = pubkeys {
                    Err(Reply::InvalidParams(InvalidParams::InvalidParam(error)))
                } else if percentile_too_big(percentile) {
                    Err(Reply::InvalidParams(InvalidParams::PercentileTooBig))
                } else {
                    Ok(
                        RpcRequestRecentPrioritizationFees {
                            pubkeys: pubkeys->Ok_0,
                            percentile,
                        },
                    )
                }
            }),
    {
        if given > MAX_TX_ACCOUNT_LOCKS {
            return Err(
                Reply::InvalidParams(InvalidParams::TooManyInputs { max: MAX_TX_ACCOUNT_LOCKS }),
            );
        }
        let pubkeys: Vec<Pubkey> = match pubkeys {
            Ok(pubkeys) => pubkeys,
            Err(error) => {
                return Err(Reply::InvalidParams(InvalidParams::InvalidParam(error)));
            },
        };
        let percentile: Option<u16> = if state.grpf_percentile {
            match config {
                Some(config) => config.percentile,
                None => None,
            }
        } else {
            None
        };
        if let Some(percentile) = percentile {
            if percentile > MAX_PERCENTILE {
                return Err(Reply::InvalidParams(InvalidParams::PercentileTooBig));
            }
        }
        Ok(RpcRequestRecentPrioritizationFees { pubkeys, percentile })
    }

    /// The request that the parameters come to.
    pub fn parse(
        state: &State,
        pubkey_strs: &Vec<String>,
        config: Option<RpcRecentPrioritizationFeesConfig>,
    ) -> (r: Result<RpcRequestRecentPrioritizationFees, Reply>)
        ensures
            ({
                let percentile = asked_percentile(*state, config);
                if pubkey_strs@.len() > MAX_TX_ACCOUNT_LOCKS {
                    r == Err::<RpcRequestRecentPrioritizationFees, Reply>(
                        Reply::InvalidParams(
                            InvalidParams::TooManyInputs { max: MAX_TX_ACCOUNT_LOCKS },
                        ),
                    )
                } else {
                    match keys::pubkeys_of(pubkey_strs@) {
                        Err(error) => r == Err::<RpcRequestRecentPrioritizationFees, Reply>(
                            Reply::InvalidParams(InvalidParams::InvalidParam(error)),
                        ),
                        Ok(pubkeys) => if percentile_too_big(percentile) {
                            r == Err::<RpcRequestRecentPrioritizationFees, Reply>(
                                Reply::InvalidParams(InvalidParams::PercentileTooBig),
                            )
                        } else {
                            &&& r matches Ok(request)
                            &&& request.pubkeys@ == pubkeys
                            &&& request.percentile == percentile
                        },
                    }
                }
            }),
    {
        RpcRequestRecentPrioritizationFees::parse_with(
            state,
            pubkey_strs.len(),
            keys::verify_pubkeys(pubkey_strs),
            config,
        )
    }

    /// What the request does first: asks the storage.
    pub fn start(self) -> (r: Action)
        ensures
            r == Action::Read(
                ReadRequest::RecentPrioritizationFees {
                    pubkeys: self.pubkeys,
                    percentile: self.percentile,
                },
            ),
    {
        Action::Read(
            ReadRequest::RecentPrioritizationFees {
                pubkeys: self.pubkeys,
                percentile: self.percentile,
            },
        )
    }

    /// What a request does with the fees.
    pub fn on_read(read: Read<Vec<RpcPrioritizationFee>>) -> (r: Action)
        ensures
            r == (match action::received_of(read) {
                Err(failure) => Action::Fail(failure),
                Ok(fees) => Action::Reply(Reply::Success(Payload::Fees(fees))),
            }),
    {
        match action::received(read) {
            Err(failure) => Action::Fail(failure),
            Ok(fees) => Action::Reply(Reply::Success(Payload::Fees(fees))),
        }
    }
}

// ------------------------------------------------------- getSlot

/// A request for the newest slot.
#[derive(Debug, Clone, Copy, PartialEq, Eq, Structural)]
pub struct RpcRequestSlot;

impl RpcRequestSlot {
    /// The reply to the request.
    pub fn parse(slots: &StoredSlots, config: Option<RpcContextConfig>) -> (r: Reply)
        ensures
            ({
                let config = params::context_or_default(config);
                let commitment = state::commitment_or_default(config.commitment);
                r == match state::context_checked(config.min_context_slot, commitment, *slots) {
                    Err(error) => Reply::Custom(error),
                    Ok(_) => Reply::Success(Payload::Number(slots.tip(commitment))),
                }
            }),
    {
        let config: RpcContextConfig = params::unwrap_context(config);
        let commitment: Commitment = state::unwrap_commitment(config.commitment);
        match state::min_context_check(config.min_context_slot, commitment, slots) {
            Err(error) => Reply::Custom(error),
            Ok(_) => Reply::Success(Payload::Number(slots.load(commitment))),
        }
    }
}

// ------------------------------------------------------- getVersion

/// Calls `to_string` of `solana_version::Version::default` and reads its
/// `feature_set`. The text is the version of the release of `solana_version`
/// that is built in, without the commit. The feature set is a hash over the
/// features that the release knows; nothing is said of its value.
#[verifier::external_body]
fn software_version() -> (r: (String, u32))
    ensures
        r.0@ == "4.0.0"@,
{
    let version = solana_version::Version::default();
    (version.to_string(), version.feature_set())
}

/// A request for the version of the software.
#[derive(Debug, Clone, Copy, PartialEq, Eq, Structural)]
pub struct RpcRequestVersion;

impl RpcRequestVersion {
    /// The reply to the request, given what came of reading the parameters
    /// that should not be there, and the version.
    pub fn reply(params: Result<(), Reply>, solana_core: String, feature_set: u32) -> (r: Reply)
        ensures
            r == (match params {
                Err(reply) => reply,
                Ok(()) => Reply::Success(Payload::Version { solana_core, feature_set }),
            }),
    {
        match params {
            Err(reply) => reply,
            Ok(()) => Reply::Success(Payload::Version { solana_core, feature_set }),
        }
    }

    /// The reply to the request, which should have no parameters: the version
    /// of the software. Nothing is said of its feature set.
    pub fn parse(request_params: Option<&str>) -> (r: Reply)
        ensures
            match jsonrpc::unexpected_params(request_params) {
                Some(refusal) => r@ == ReplyView::UnexpectedParams(refusal),
                None => r matches Reply::Success(Payload::Version { solana_core, .. })
                    && solana_core@ == "4.0.0"@,
            },
    {
        let (solana_core, feature_set): (String, u32) = software_version();
        RpcRequestVersion::reply(
            jsonrpc::no_params_expected(request_params),
            solana_core,
            feature_set,
        )
    }
}

// ------------------------------------------------------- isBlockhashValid

/// Whether the storage knows a block hash that is still valid.
#[derive(Debug, Clone, Copy, PartialEq, Eq, Structural)]
pub struct ReadResultBlockhashValid {
    pub slot: u64,
    pub is_valid: bool,
}

/// A request for the validity of a block hash.
#[derive(Debug)]
pub struct RpcRequestIsBlockhashValid {
    pub blockhash: String,
    pub commitment: Commitment,
}

impl RpcRequestIsBlockhashValid {
    /// What comes of the parameters, given what came of reading the hash.
    pub open spec fn parsed(
        slots: StoredSlots,
        blockhash: String,
        hash: Result<Blockhash, ParseError>,
        config: RpcContextConfig,
    ) -> Result<RpcRequestIsBlockhashValid, Reply> {
        let commitment = state::commitment_or_default(config.commitment);
        match state::context_checked(config.min_context_slot, commitment, slots) {
            Err(error) => Err(Reply::Custom(error)),
            Ok(_) => match hash {
                Err(error) => Err(Reply::InvalidParams(InvalidParams::InvalidBlockhash(error))),
                Ok(_) => Ok(RpcRequestIsBlockhashValid { blockhash, commitment }),
            },
        }
    }

    /// The request that the parameters come to, given what came of reading the
    /// hash.
    pub fn parse_with(
        slots: &StoredSlots,
        blockhash: String,
        hash: Result<Blockhash, ParseError>,
        config: RpcContextConfig,
    ) -> (r: Result<RpcRequestIsBlockhashValid, Reply>)
        ensures
            r == RpcRequestIsBlockhashValid::parsed(*slots, blockhash, hash, config),
    {
        let commitment: Commitment = state::unwrap_commitment(config.commitment);
        if let Err(error) = state::min_context_check(config.min_context_slot, commitment, slots) {
            return Err(Reply::Custom(error));
        }
        match hash {
            Err(error) => Err(Reply::InvalidParams(InvalidParams::InvalidBlockhash(error))),
            Ok(_) => Ok(RpcRequestIsBlockhashValid { blockhash, commitment }),
        }
    }

    /// The request that the parameters come to.
    pub fn parse(slots: &StoredSlots, blockhash: String, config: Option<RpcContextConfig>) -> (r: Result<
        RpcRequestIsBlockhashValid,
        Reply,
    >)
        ensures
            r == RpcRequestIsBlockhashValid::parsed(
                *slots,
                blockhash,
                keys::hash_of(blockhash@),
                params::context_or_default(config),
            ),
    {
        let hash: Result<Blockhash, ParseError> = keys::parse_hash(blockhash.as_str());
        RpcRequestIsBlockhashValid::parse_with(
            slots,
            blockhash,
            hash,
            params::unwrap_context(config),
        )
    }

    /// What the request does first: asks the storage.
    pub fn start(self) -> (r: Action)
        ensures
            r == Action::Read(
                ReadRequest::BlockhashValid {
                    blockhash: self.blockhash,
                    commitment: self.commitment,
                },
            ),
    {
        Action::Read(
            ReadRequest::BlockhashValid {
                blockhash: self.blockhash,
                commitment: self.commitment,
            },
        )
    }

    /// What a request does with the answer of the storage.
    pub fn on_read(read: Read<ReadResultBlockhashValid>) -> (r: Action)
        ensures
            r == (match action::received_of(read) {
                Err(failure) => Action::Fail(failure),
                Ok(found) => Action::Reply(
                    Reply::Success(
                        Payload::BlockhashValid { slot: found.slot, is_valid: found.is_valid },
                    ),
                ),
            }),
    {
        match action::received(read) {
            Err(failure) => Action::Fail(failure),
            Ok(found) => Action::Reply(
                Reply::Success(
                    Payload::BlockhashValid { slot: found.slot, is_valid: found.is_valid },
                ),
            ),
        }
    }
}

} // verus!
