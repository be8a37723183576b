//! The transactions of a page in full.

use crate::rpc::action::{
    self, Failure, Read, ReadRequest, ReadResultTransaction, RpcRequestTransactionWorkRequest,
};
use crate::rpc::gtfa::page::GtfaEntry;
use crate::rpc::gtfa::request::RpcRequestTransactionsForAddress;
use crate::rpc::jsonrpc::{Reply, RpcCustomError};
use crate::rpc::keys::{self, ParseError, Signature};
use crate::rpc::work::Encoded;
use vstd::prelude::*;

verus! {

/// A transaction as it is listed in full.
#[derive(Debug)]
pub struct GtfaFullEntry<T> {
    pub slot: u64,
    pub transaction_index: usize,
    pub block_time: Option<i64>,
    pub transaction: T,
}

/// A time, or another one where there is none.
pub open spec fn time_or(time: Option<i64>, other: Option<i64>) -> Option<i64> {
    if time is Some {
        time
    } else {
        other
    }
}

impl GtfaEntry {
    /// The signature of the transaction, as it is read.
    pub fn signature(&self) -> (r: Result<Signature, ParseError>)
        ensures
            r == keys::signature_of(self.record.signature@),
    {
        keys::parse_signature(self.record.signature.as_str())
    }

    /// What is asked of the storage for the transaction in full: the one of
    /// the signature of the entry. An error where that is malformed.
    pub fn read_transaction(&self) -> (r: Result<ReadRequest, ParseError>)
        ensures
            r == (match keys::signature_of(self.record.signature@) {
                Ok(signature) => Ok(ReadRequest::Transaction { signature }),
                Err(error) => Err(error),
            }),
    {
        match self.signature() {
            Ok(signature) => Ok(ReadRequest::Transaction { signature }),
            Err(error) => Err(error),
        }
    }
}

/// A page, as it is answered.
#[derive(Debug)]
pub struct GtfaResponse<T> {
    pub data: Vec<T>,
    pub pagination_token: Option<String>,
}

impl RpcRequestTransactionsForAddress {
    /// The page that is answered where the storage does not know a signature
    /// of the filter: it lists nothing, and nothing follows.
    pub fn empty_response<T>(&self) -> (r: GtfaResponse<T>)
        ensures
            r.data@ == Seq::<T>::empty(),
            r.pagination_token is None,
    {
        GtfaResponse { data: Vec::new(), pagination_token: None }
    }

    /// What is to be decoded and encoded for a transaction of the page: what
    /// the storage has of it. That it has nothing is a failure: the page lists
    /// only what the storage has.
    pub fn fetch_transaction(
        &self,
        entry: &GtfaEntry,
        signature: Signature,
        read: Read<ReadResultTransaction>,
    ) -> (r: Result<RpcRequestTransactionWorkRequest, Failure>)
        ensures
            r == (match action::received_of(read) {
                Err(failure) => Err(failure),
                Ok(ReadResultTransaction::NotFound) => Err(Failure::TransactionMissing(signature)),
                Ok(ReadResultTransaction::Transaction { slot, block_time, bytes, index }) => Ok(
                    RpcRequestTransactionWorkRequest {
                        encoding: self.encoding,
                        max_supported_transaction_version: self.max_supported_transaction_version,
                        slot,
                        block_time: time_or(block_time, entry.record.block_time),
                        bytes,
                        index: entry.transaction_index as u32,
                    },
                ),
            }),
    {
        match action::received(read) {
            Err(failure) => Err(failure),
            Ok(ReadResultTransaction::NotFound) => Err(Failure::TransactionMissing(signature)),
            Ok(ReadResultTransaction::Transaction { slot, block_time, bytes, .. }) => {
                let block_time: Option<i64> = match block_time {
                    Some(time) => Some(time),
                    None => entry.record.block_time,
                };
                Ok(
                    RpcRequestTransactionWorkRequest {
                        encoding: self.encoding,
                        max_supported_transaction_version: self.max_supported_transaction_version,
                        slot,
                        block_time,
                        bytes,
                        index: entry.transaction_index as u32,
                    },
                )
            },
        }
    }

    /// A transaction of the page in full, or the reply or the failure that
    /// came of encoding it. The text says why the encoding broke off.
    pub fn build_full_entry<T>(
        entry: &GtfaEntry,
        block_time: Option<i64>,
        encoded: Result<Encoded<T>, String>,
    ) -> (r: Result<Result<GtfaFullEntry<T>, Reply>, Failure>)
        ensures
            r == (match encoded {
                Err(error) => Err(Failure::EncodePanicked(error)),
                Ok(Encoded::MalformedBytes) => Err(Failure::TransactionDecodeProtobuf),
                Ok(Encoded::Malformed) => Err(Failure::TransactionDecode),
                Ok(Encoded::UnsupportedVersion(version)) => Ok(
                    Err(Reply::Custom(RpcCustomError::UnsupportedTransactionVersion(version))),
                ),
                Ok(Encoded::Value(transaction)) => Ok(
                    Ok(
                        GtfaFullEntry {
                            slot: entry.record.slot,
                            transaction_index: entry.transaction_index,
                            block_time,
                            transaction,
                        },
                    ),
                ),
            }),
    {
        match encoded {
            Err(error) => Err(Failure::EncodePanicked(error)),
            Ok(encoded) => match RpcRequestTransactionWorkRequest::process(encoded) {
                Err(failure) => Err(failure),
                Ok(Err(reply)) => Ok(Err(reply)),
                Ok(Ok(transaction)) => Ok(
                    Ok(
                        GtfaFullEntry {
                            slot: entry.record.slot,
                            transaction_index: entry.transaction_index,
                            block_time,
                            transaction,
                        },
                    ),
                ),
            },
        }
    }
}

/// The transactions of a part of the page in full, in their order. The first
/// one that came to a reply instead makes that reply the answer.
pub fn collect_full<T>(built: Vec<Result<GtfaFullEntry<T>, Reply>>) -> (r: Result<
    Vec<GtfaFullEntry<T>>,
    Reply,
>)
    ensures
        r is Ok <==> forall|i: int| 0 <= i < built@.len() ==> (#[trigger] built@[i]) is Ok,
        match r {
            Ok(entries) => {
                &&& entries@.len() == built@.len()
                &&& forall|i: int|
                    0 <= i < built@.len() ==> #[trigger] built@[i] == Ok::<
                        GtfaFullEntry<T>,
                        Reply,
                    >(entries@[i])
            },
            Err(reply) => exists|i: int|
                0 <= i < built@.len() && #[trigger] built@[i] == Err::<GtfaFullEntry<T>, Reply>(
                    reply,
                ) && forall|j: int| 0 <= j < i ==> (#[trigger] built@[j]) is Ok,
        },
{
    let ghost all = built@;
    let mut entries: Vec<GtfaFullEntry<T>> = Vec::new();
    for entry in it: built
        invariant
            it.seq() == all,
            entries@.len() == it.index(),
            forall|j: int|
                0 <= j < it.index() ==> #[trigger] all[j] == Ok::<GtfaFullEntry<T>, Reply>(
                    entries@[j],
                ),
    {
        match entry {
            Ok(entry) => {
                entries.push(entry);
            },
            Err(reply) => {
                assert(all[it.index()] == Err::<GtfaFullEntry<T>, Reply>(reply));
                return Err(reply);
            },
        }
    }
    Ok(entries)
}

} // verus!
