//! Signatures and statuses, as the storage and other nodes give them.

use crate::rpc::jsonrpc;
use jsonrpsee_types::{Response, ResponsePayload};
use solana_rpc_client_api::response::{
    Response as ContextResponse, RpcConfirmedTransactionStatusWithSignature,
};
use solana_transaction_status_client_types::TransactionStatus;
use vstd::prelude::*;

verus! {

/// A transaction of an address.
#[derive(Debug)]
pub struct SignatureRecord {
    /// The text of its signature.
    pub signature: String,
    pub slot: u64,
    pub block_time: Option<i64>,
    /// Whether the transaction failed.
    pub failed: bool,
    /// The whole record, as a JSON text.
    pub json: String,
}

/// A transaction of an address, with its texts as sequences of characters.
pub struct SignatureRecordView {
    pub signature: Seq<char>,
    pub slot: u64,
    pub block_time: Option<i64>,
    pub failed: bool,
    pub json: Seq<char>,
}

impl View for SignatureRecord {
    type V = SignatureRecordView;

    open spec fn view(&self) -> SignatureRecordView {
        SignatureRecordView {
            signature: self.signature@,
            slot: self.slot,
            block_time: self.block_time,
            failed: self.failed,
            json: self.json@,
        }
    }
}

/// Records, with their texts as sequences of characters.
pub open spec fn record_views(records: Seq<SignatureRecord>) -> Seq<SignatureRecordView> {
    Seq::new(records.len(), |i: int| records[i]@)
}

/// The JSON texts of records.
pub open spec fn jsons(records: Seq<SignatureRecordView>) -> Seq<Seq<char>> {
    Seq::new(records.len(), |i: int| records[i].json)
}

impl SignatureRecord {
    /// Another copy of a record.
    pub fn copy(&self) -> (r: SignatureRecord)
        ensures
            r == *self,
    {
        SignatureRecord {
            signature: self.signature.clone(),
            slot: self.slot,
            block_time: self.block_time,
            failed: self.failed,
            json: self.json.clone(),
        }
    }
}

/// Appends the JSON texts of records to a list.
pub fn append_jsons(list: &mut Vec<String>, records: &Vec<SignatureRecord>)
    ensures
        jsonrpc::texts(final(list)@) == jsonrpc::texts(old(list)@) + jsons(record_views(records@)),
{
    let ghost before = jsonrpc::texts(list@);
    let ghost all = jsons(record_views(records@));
    let mut i: usize = 0;
    assert(jsonrpc::texts(list@) =~= before + all.take(0));
    while i < records.len()
        invariant
            i <= records.len(),
            all == jsons(record_views(records@)),
            jsonrpc::texts(list@) == before + all.take(i as int),
        decreases records.len() - i,
    {
        let ghost known = list@;
        list.push(records[i].json.clone());
        assert(jsonrpc::texts(list@) =~= jsonrpc::texts(known).push(all[i as int]));
        assert(jsonrpc::texts(list@) =~= before + all.take(i + 1));
        i = i + 1;
    }
    assert(all.take(i as int) =~= all);
}

// ------------------------------------------------------- answers of other nodes

/// What another node answered.
#[derive(Debug)]
pub enum UpstreamReply<T> {
    /// No JSON of the right shape.
    Malformed,
    /// An error.
    Error,
    Success(T),
}

/// What `serde_json::from_slice` makes of the bytes of a reply with records.
pub uninterp spec fn signatures_reply_of(bytes: Seq<u8>) -> UpstreamReply<Seq<SignatureRecordView>>;

/// What `serde_json::from_slice` makes of the bytes of a reply with statuses.
pub uninterp spec fn statuses_reply_of(bytes: Seq<u8>) -> UpstreamReply<Seq<Option<Seq<char>>>>;

/// A reply with records, with their texts as sequences of characters.
pub open spec fn signatures_reply_view(reply: UpstreamReply<Vec<SignatureRecord>>) -> UpstreamReply<
    Seq<SignatureRecordView>,
> {
    match reply {
        UpstreamReply::Malformed => UpstreamReply::Malformed,
        UpstreamReply::Error => UpstreamReply::Error,
        UpstreamReply::Success(records) => UpstreamReply::Success(record_views(records@)),
    }
}

/// A reply with statuses, with their texts as sequences of characters.
pub open spec fn statuses_reply_view(reply: UpstreamReply<Vec<Option<String>>>) -> UpstreamReply<
    Seq<Option<Seq<char>>>,
> {
    match reply {
        UpstreamReply::Malformed => UpstreamReply::Malformed,
        UpstreamReply::Error => UpstreamReply::Error,
        UpstreamReply::Success(statuses) => UpstreamReply::Success(
            jsonrpc::optional_texts(statuses@),
        ),
    }
}

/// Calls `serde_json::from_slice` for a `Response` of `jsonrpsee_types` with
/// a list of `RpcConfirmedTransactionStatusWithSignature`. What comes out
/// depends on the bytes alone.
#[verifier::external_body]
pub(crate) fn parse_signatures_reply(bytes: &Vec<u8>) -> (r: UpstreamReply<Vec<SignatureRecord>>)
    ensures
        signatures_reply_view(r) == signatures_reply_of(bytes@),
{
    let convert = |record: RpcConfirmedTransactionStatusWithSignature| SignatureRecord {
        json: serde_json::to_string(&record).unwrap_or_default(),
        slot: record.slot,
        block_time: record.block_time,
        failed: record.err.is_some(),
        signature: record.signature,
    };
    match serde_json::from_slice::<Response<Vec<_>>>(bytes).map(|response| response.payload) {
        Err(_) => UpstreamReply::Malformed,
        Ok(ResponsePayload::Error(_)) => UpstreamReply::Error,
        Ok(ResponsePayload::Success(list)) => {
            UpstreamReply::Success(list.into_owned().into_iter().map(convert).collect())
        },
    }
}

/// Calls `serde_json::from_slice` for a `Response` of `jsonrpsee_types` with
/// a list of `TransactionStatus` as of a slot. What comes out, each status as
/// a JSON text, depends on the bytes alone.
#[verifier::external_body]
pub(crate) fn parse_statuses_reply(bytes: &Vec<u8>) -> (r: UpstreamReply<Vec<Option<String>>>)
    ensures
        statuses_reply_view(r) == statuses_reply_of(bytes@),
{
    let convert = |status: Option<TransactionStatus>| {
        status.map(|status| serde_json::to_string(&status).unwrap_or_default())
    };
    match serde_json::from_slice::<Response<ContextResponse<Vec<_>>>>(bytes).map(|response| response.payload) {
        Err(_) => UpstreamReply::Malformed,
        Ok(ResponsePayload::Error(_)) => UpstreamReply::Error,
        Ok(ResponsePayload::Success(list)) => {
            UpstreamReply::Success(list.into_owned().value.into_iter().map(convert).collect())
        },
    }
}

} // verus!
