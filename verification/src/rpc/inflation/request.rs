//! The parameters of a request, and what they come to.

use crate::rpc::action::{Action, ReadRequest};
use crate::rpc::jsonrpc::{InvalidParams, Reply, RpcCustomError};
use crate::rpc::keys::{self, ParseError, Pubkey};
use crate::rpc::state::{self, Commitment, StoredSlots};
use vstd::prelude::*;

verus! {

/// The options of a request.
#[derive(Debug, Clone, Copy, PartialEq, Eq, Structural)]
pub struct RpcEpochConfig {
    pub epoch: Option<u64>,
    pub commitment: Option<Commitment>,
    pub min_context_slot: Option<u64>,
}

/// A request for the rewards of addresses in an epoch.
#[derive(Debug)]
pub struct RpcRequestInflationReward {
    pub upstream_disabled: bool,
    pub commitment: Commitment,
    pub epoch: u64,
    pub addresses: Vec<Pubkey>,
}

/// The epoch before an epoch, or the first one where there is none.
pub open spec fn epoch_before(epoch: u64) -> u64 {
    if epoch == 0 {
        0
    } else {
        (epoch - 1) as u64
    }
}

/// The epoch that a request asks for: the one before the newest where it
/// names none. Only then this node has to have reached a slot.
pub open spec fn asked_epoch(config: RpcEpochConfig, slots: StoredSlots) -> Result<
    u64,
    RpcCustomError,
> {
    let commitment = state::commitment_or_default(config.commitment);
    match config.epoch {
        Some(epoch) => Ok(epoch),
        None => match state::context_checked(config.min_context_slot, commitment, slots) {
            Err(error) => Err(error),
            Ok(_) => Ok(epoch_before(keys::epoch_of(slots.tip(commitment)))),
        },
    }
}

impl RpcRequestInflationReward {
    /// The request that the parameters come to, given what came of reading
    /// the addresses.
    pub fn parse_with(
        slots: &StoredSlots,
        upstream_disabled: bool,
        addresses: Result<Vec<Pubkey>, ParseError>,
        config: RpcEpochConfig,
    ) -> (r: Result<RpcRequestInflationReward, Reply>)
        ensures
            r == (match addresses {
                Err(error) => Err(Reply::InvalidParams(InvalidParams::InvalidParam(error))),
                Ok(addresses) => match asked_epoch(config, *slots) {
                    Err(error) => Err(Reply::Custom(error)),
                    Ok(epoch) => Ok(
                        RpcRequestInflationReward {
                            upstream_disabled,
                            commitment: state::commitment_or_default(config.commitment),
                            epoch,
                            addresses,
                        },
                    ),
                },
            }),
    {
        let addresses: Vec<Pubkey> = match addresses {
            Ok(addresses) => addresses,
            Err(error) => {
                return Err(Reply::InvalidParams(InvalidParams::InvalidParam(error)));
            },
        };
        let commitment: Commitment = state::unwrap_commitment(config.commitment);
        let epoch: u64 = match config.epoch {
            Some(epoch) => epoch,
            None => {
                let slot: u64 = match state::min_context_check(
                    config.min_context_slot,
                    commitment,
                    slots,
                ) {
                    Ok(Some(slot)) => slot,
                    Ok(None) => slots.load(commitment),
                    Err(error) => {
                        return Err(Reply::Custom(error));
                    },
                };
                let epoch: u64 = keys::get_epoch(slot);
                if epoch == 0 {
                    0
                } else {
                    epoch - 1
                }
            },
        };
        Ok(RpcRequestInflationReward { upstream_disabled, commitment, epoch, addresses })
    }

    /// The request that the parameters come to.
    pub fn parse(
        slots: &StoredSlots,
        upstream_disabled: bool,
        address_strs: &Vec<String>,
        config: RpcEpochConfig,
    ) -> (r: Result<RpcRequestInflationReward, Reply>)
        ensures
            match (keys::pubkeys_of(address_strs@), asked_epoch(config, *slots)) {
                (Err(error), _) => r == Err::<RpcRequestInflationReward, Reply>(
                    Reply::InvalidParams(InvalidParams::InvalidParam(error)),
                ),
                (Ok(_), Err(error)) => r == Err::<RpcRequestInflationReward, Reply>(
                    Reply::Custom(error),
                ),
                (Ok(addresses), Ok(epoch)) => {
                    &&& r matches Ok(request)
                    &&& request.addresses@ == addresses
                    &&& request.epoch == epoch
                    &&& request.commitment == state::commitment_or_default(config.commitment)
                    &&& request.upstream_disabled == upstream_disabled
                },
            },
    {
        RpcRequestInflationReward::parse_with(
            slots,
            upstream_disabled,
            keys::verify_pubkeys(address_strs),
            config,
        )
    }

    /// What the request does first: asks the storage for the rewards.
    pub fn start(self) -> (r: Action)
        ensures
            r == Action::Read(
                ReadRequest::InflationReward { epoch: self.epoch, addresses: self.addresses },
            ),
    {
        Action::Read(
            ReadRequest::InflationReward { epoch: self.epoch, addresses: self.addresses },
        )
    }
}

} // verus!
