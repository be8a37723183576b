//! What comes of handing a block or a transaction to the workers that encode
//! it.

use crate::rpc::action::{
    Failure, RpcRequestBlockWorkRequest, RpcRequestTransactionWorkRequest,
};
use crate::rpc::jsonrpc::{Reply, RpcCustomError};
use vstd::prelude::*;

verus! {

/// How long to wait before a full queue is tried again, in microseconds.
pub const QUEUE_WAIT_MICROS: u64 = 250;

/// What happens to a request that is handed to the workers.
#[derive(Debug, Clone, Copy, PartialEq, Eq, Structural)]
pub enum SubmitOutcome {
    Sent,
    /// The queue is full.
    Full,
    /// There are no workers any more.
    Disconnected,
}

/// What is done about it.
#[derive(Debug)]
pub enum SubmitStep {
    /// The answer is waited for.
    Await,
    /// The request is handed over again after a wait.
    Retry { micros: u64 },
    Fail(Failure),
}

/// What is done about a request that was handed to the workers.
pub fn on_submit(outcome: SubmitOutcome) -> (r: SubmitStep)
    ensures
        r == (match outcome {
            SubmitOutcome::Sent => SubmitStep::Await,
            SubmitOutcome::Full => SubmitStep::Retry { micros: QUEUE_WAIT_MICROS },
            SubmitOutcome::Disconnected => SubmitStep::Fail(Failure::WorkersDisconnected),
        }),
{
    match outcome {
        SubmitOutcome::Sent => SubmitStep::Await,
        SubmitOutcome::Full => SubmitStep::Retry { micros: QUEUE_WAIT_MICROS },
        SubmitOutcome::Disconnected => SubmitStep::Fail(Failure::WorkersDisconnected),
    }
}

/// The answer of the workers, or the failure where it was lost.
pub fn on_encoded<T>(answer: Option<T>) -> (r: Result<T, Failure>)
    ensures
        r == (match answer {
            Some(answer) => Ok(answer),
            None => Err(Failure::EncodedReplyLost),
        }),
{
    match answer {
        Some(answer) => Ok(answer),
        None => Err(Failure::EncodedReplyLost),
    }
}

/// What comes of decoding a block or a transaction and encoding it again.
#[derive(Debug)]
pub enum Encoded<T> {
    /// The bytes cannot be decoded.
    MalformedBytes,
    /// What the bytes hold is no block or transaction.
    Malformed,
    /// The version of a transaction is above what the request supports.
    UnsupportedVersion(u8),
    Value(T),
}

impl RpcRequestBlockWorkRequest {
    /// What comes of a block: its encoding, or the reply or the failure that
    /// came instead.
    pub fn process<T>(encoded: Encoded<T>) -> (r: Result<Result<T, Reply>, Failure>)
        ensures
            r == (match encoded {
                Encoded::MalformedBytes => Err(Failure::BlockDecodeProtobuf),
                Encoded::Malformed => Err(Failure::BlockDecode),
                Encoded::UnsupportedVersion(version) => Ok(
                    Err(Reply::Custom(RpcCustomError::UnsupportedTransactionVersion(version))),
                ),
                Encoded::Value(block) => Ok(Ok(block)),
            }),
    {
        match encoded {
            Encoded::MalformedBytes => Err(Failure::BlockDecodeProtobuf),
            Encoded::Malformed => Err(Failure::BlockDecode),
            Encoded::UnsupportedVersion(version) => Ok(
                Err(Reply::Custom(RpcCustomError::UnsupportedTransactionVersion(version))),
            ),
            Encoded::Value(block) => Ok(Ok(block)),
        }
    }
}

impl RpcRequestTransactionWorkRequest {
    /// What comes of a transaction: its encoding, or the reply or the failure
    /// that came instead.
    pub fn process<T>(encoded: Encoded<T>) -> (r: Result<Result<T, Reply>, Failure>)
        ensures
            r == (match encoded {
                Encoded::MalformedBytes => Err(Failure::TransactionDecodeProtobuf),
                Encoded::Malformed => Err(Failure::TransactionDecode),
                Encoded::UnsupportedVersion(version) => Ok(
                    Err(Reply::Custom(RpcCustomError::UnsupportedTransactionVersion(version))),
                ),
                Encoded::Value(transaction) => Ok(Ok(transaction)),
            }),
    {
        match encoded {
            Encoded::MalformedBytes => Err(Failure::TransactionDecodeProtobuf),
            Encoded::Malformed => Err(Failure::TransactionDecode),
            Encoded::UnsupportedVersion(version) => Ok(
                Err(Reply::Custom(RpcCustomError::UnsupportedTransactionVersion(version))),
            ),
            Encoded::Value(transaction) => Ok(Ok(transaction)),
        }
    }
}

} // verus!
