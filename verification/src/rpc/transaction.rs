//! `getTransaction`.

use crate::rpc::action::{
    self, Action, Read, ReadRequest, ReadResultTransaction, Reason,
    RpcRequestTransactionWorkRequest, UiTransactionEncoding, UpstreamCall, WorkRequest,
};
use crate::rpc::jsonrpc::{InvalidParams, Payload, Reply, RpcCustomError};
use crate::rpc::keys::{self, ParseError, Signature};
use crate::rpc::params::{self, RpcEncodingConfigWrapper, RpcTransactionConfig};
use crate::rpc::state::{self, Commitment, ConfigRpcCallJson, State, StoredSlots};
use vstd::prelude::*;

verus! {

/// A request for a transaction.
#[derive(Debug, Clone, Copy)]
pub struct RpcRequestTransaction {
    pub upstream_disabled: bool,
    pub signature: Signature,
    pub commitment: Commitment,
    pub encoding: UiTransactionEncoding,
    pub max_supported_transaction_version: Option<u8>,
}

impl RpcRequestTransaction {
    /// What comes of the parameters, given what came of reading the signature.
    pub open spec fn parsed(
        upstream_disabled: bool,
        signature: Result<Signature, ParseError>,
        config: RpcTransactionConfig,
    ) -> Result<RpcRequestTransaction, Reply> {
        let commitment = state::commitment_or_default(config.commitment);
        match signature {
            Err(error) => Err(Reply::InvalidParams(InvalidParams::InvalidParam(error))),
            Ok(signature) => if !commitment.at_least_confirmed() {
                Err(Reply::InvalidParams(InvalidParams::CommitmentBelowConfirmed))
            } else {
                Ok(
                    RpcRequestTransaction {
                        upstream_disabled,
                        signature,
                        commitment,
                        encoding: params::encoding_or_default(config.encoding),
                        max_supported_transaction_version: config.max_supported_transaction_version,
                    },
                )
            },
        }
    }

    /// The request that the parameters come to, given what came of reading
    /// the signature.
    pub fn parse_with(
        upstream_disabled: bool,
        signature: Result<Signature, ParseError>,
        config: RpcTransactionConfig,
    ) -> (r: Result<RpcRequestTransaction, Reply>)
        ensures
            r == RpcRequestTransaction::parsed(upstream_disabled, signature, config),
    {
        let signature: Signature = match params::check_signature(signature) {
            Ok(signature) => signature,
            Err(error) => {
                return Err(Reply::InvalidParams(error));
            },
        };
        let commitment: Commitment = state::unwrap_commitment(config.commitment);
        if let Err(error) = state::check_is_at_least_confirmed(commitment) {
            return Err(Reply::InvalidParams(error));
        }
        Ok(
            RpcRequestTransaction {
                upstream_disabled,
                signature,
                commitment,
                encoding: params::unwrap_encoding(config.encoding),
                max_supported_transaction_version: config.max_supported_transaction_version,
            },
        )
    }

    /// The request that the parameters come to.
    pub fn parse(
        upstream_disabled: bool,
        signature_str: &str,
        config: Option<RpcEncodingConfigWrapper<RpcTransactionConfig>>,
    ) -> (r: Result<RpcRequestTransaction, Reply>)
        ensures
            r == RpcRequestTransaction::parsed(
                upstream_disabled,
                keys::signature_of(signature_str@),
                RpcTransactionConfig::of(config),
            ),
    {
        RpcRequestTransaction::parse_with(
            upstream_disabled,
            keys::parse_signature(signature_str),
            RpcTransactionConfig::current(config),
        )
    }

    /// What the request does first: asks the storage.
    pub fn start(&self) -> (r: Action)
        ensures
            r == Action::Read(ReadRequest::Transaction { signature: self.signature }),
    {
        Action::Read(ReadRequest::Transaction { signature: self.signature })
    }

    /// Where a transaction comes from that the storage does not have.
    pub open spec fn upstream_action(self, state: State, reason: Reason) -> Action {
        if self.upstream_disabled {
            Action::Reply(Reply::Success(Payload::Null))
        } else {
            match state.upstream(ConfigRpcCallJson::GetTransaction) {
                Some(index) => Action::Upstream {
                    index,
                    call: UpstreamCall::Transaction {
                        signature: self.signature,
                        commitment: self.commitment,
                        encoding: self.encoding,
                        max_supported_transaction_version: self.max_supported_transaction_version,
                    },
                    reason,
                },
                None => Action::Reply(
                    Reply::Custom(RpcCustomError::TransactionHistoryNotAvailable),
                ),
            }
        }
    }

    /// Asks another node for the transaction, where there is one.
    pub fn fetch_upstream(&self, state: &State, reason: Reason) -> (r: Action)
        ensures
            r == self.upstream_action(*state, reason),
    {
        if self.upstream_disabled {
            return Action::Reply(Reply::Success(Payload::Null));
        }
        match state.get_upstream(ConfigRpcCallJson::GetTransaction) {
            Some(index) => Action::Upstream {
                index,
                call: UpstreamCall::Transaction {
                    signature: self.signature,
                    commitment: self.commitment,
                    encoding: self.encoding,
                    max_supported_transaction_version: self.max_supported_transaction_version,
                },
                reason,
            },
            None => Action::Reply(Reply::Custom(RpcCustomError::TransactionHistoryNotAvailable)),
        }
    }

    /// What the request does with the transaction that the storage has. One
    /// that is not finalized is not given where that is asked for.
    pub open spec fn next_action(
        self,
        state: State,
        slots: StoredSlots,
        read: Read<ReadResultTransaction>,
    ) -> Action {
        match action::received_of(read) {
            Err(failure) => Action::Fail(failure),
            Ok(ReadResultTransaction::NotFound) => self.upstream_action(
                state,
                Reason::NotFoundLocally,
            ),
            Ok(ReadResultTransaction::Transaction { slot, block_time, bytes, index }) => {
                if self.commitment == Commitment::Finalized && slots.finalized < slot {
                    Action::Reply(Reply::Success(Payload::Null))
                } else if slot <= slots.first_available {
                    self.upstream_action(state, Reason::BelowRetention)
                } else {
                    Action::Encode(
                        WorkRequest::Transaction(
                            RpcRequestTransactionWorkRequest {
                                encoding: self.encoding,
                                max_supported_transaction_version:
                                    self.max_supported_transaction_version,
                                slot,
                                block_time,
                                bytes,
                                index,
                            },
                        ),
                    )
                }
            },
        }
    }

    /// What the request does with the transaction that the storage has.
    pub fn on_read(&self, state: &State, slots: &StoredSlots, read: Read<ReadResultTransaction>) -> (r: Action)
        ensures
            r == self.next_action(*state, *slots, read),
    {
        match action::received(read) {
            Err(failure) => Action::Fail(failure),
            Ok(ReadResultTransaction::NotFound) => self.fetch_upstream(
                state,
                Reason::NotFoundLocally,
            ),
            Ok(ReadResultTransaction::Transaction { slot, block_time, bytes, index }) => {
                if self.commitment == Commitment::Finalized && slots.finalized < slot {
                    return Action::Reply(Reply::Success(Payload::Null));
                }
                // The slot may have left the window while it was read.
                if slot <= slots.first_available {
                    return self.fetch_upstream(state, Reason::BelowRetention);
                }
                Action::Encode(
                    WorkRequest::Transaction(
                        RpcRequestTransactionWorkRequest {
                            encoding: self.encoding,
                            max_supported_transaction_version:
                                self.max_supported_transaction_version,
                            slot,
                            block_time,
                            bytes,
                            index,
                        },
                    ),
                )
            },
        }
    }
}

/// A request that forbids it asks no other node for a transaction.
pub proof fn law_disabled_transaction_asks_no_upstream(
    request: RpcRequestTransaction,
    state: State,
    slots: StoredSlots,
    read: Read<ReadResultTransaction>,
)
    requires
        request.upstream_disabled,
    ensures
        !(request.next_action(state, slots, read) is Upstream),
{
}

/// A transaction of the storage is given only where its slot is in the window
/// that the storage keeps, and finalized where that is asked for.
pub proof fn law_transaction_is_given_within_the_window(
    request: RpcRequestTransaction,
    state: State,
    slots: StoredSlots,
    read: Read<ReadResultTransaction>,
)
    ensures
        request.next_action(state, slots, read) matches Action::Encode(WorkRequest::Transaction(work))
            ==> slots.first_available < work.slot && (request.commitment == Commitment::Finalized
            ==> work.slot <= slots.finalized),
{
}

} // verus!
