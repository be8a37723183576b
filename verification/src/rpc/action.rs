//! What a request asks of the storage and of other nodes, what comes back,
//! and what it does next.

use crate::rpc::jsonrpc::Reply;
use crate::rpc::keys::{self, Pubkey, Signature};
use crate::rpc::state::Commitment;
use vstd::prelude::*;

verus! {

/// Where a list of blocks ends.
#[derive(Debug, Clone, Copy, PartialEq, Eq, Structural)]
pub enum RpcRequestBlocksUntil {
    EndSlot(u64),
    Limit(usize),
}

/// How a transaction is encoded.
#[derive(Debug, Clone, Copy, PartialEq, Eq, Structural)]
pub enum UiTransactionEncoding {
    Binary,
    Base64,
    Base58,
    Json,
    JsonParsed,
}

/// How much of the transactions of a block is encoded.
#[derive(Debug, Clone, Copy, PartialEq, Eq, Structural)]
pub enum TransactionDetails {
    Full,
    Signatures,
    Omitted,
    Accounts,
}

/// How a block is encoded.
#[derive(Debug, Clone, Copy, PartialEq, Eq, Structural)]
pub struct BlockEncodingOptions {
    pub transaction_details: TransactionDetails,
    pub show_rewards: bool,
    pub max_supported_transaction_version: Option<u8>,
}

// ------------------------------------------------------- requests to the storage

/// What is asked of the storage.
#[allow(inconsistent_fields)]
#[derive(Debug)]
pub enum ReadRequest {
    Block { slot: u64 },
    BlockHeight { commitment: Commitment },
    Blocks { start_slot: u64, until: RpcRequestBlocksUntil, commitment: Commitment },
    BlockTime { slot: u64 },
    BlockhashValid { blockhash: String, commitment: Commitment },
    InflationReward { epoch: u64, addresses: Vec<Pubkey> },
    LatestBlockhash { commitment: Commitment },
    RecentPrioritizationFees { pubkeys: Vec<Pubkey>, percentile: Option<u16> },
    SignaturesForAddress {
        commitment: Commitment,
        address: Pubkey,
        before: Option<Signature>,
        until: Option<Signature>,
        limit: usize,
    },
    SignaturePosition { address: Pubkey, signature: Signature },
    SignatureStatuses { signatures: Vec<Signature>, search_transaction_history: bool },
    Transaction { signature: Signature },
    TransactionsForAddress {
        commitment: Commitment,
        address: Pubkey,
        desc: bool,
        cursor: Option<(u64, u32)>,
        slot_filter_lower: Option<u64>,
        slot_filter_upper: Option<u64>,
        block_time_filter_lower: Option<i64>,
        block_time_filter_upper: Option<i64>,
        limit: usize,
    },
}

/// What comes of a request to the storage.
#[derive(Debug)]
pub enum Read<T> {
    /// The request could not be sent.
    NotSent,
    /// The answer was lost.
    Lost,
    /// The storage gave up at the deadline.
    Timeout,
    /// The storage failed, for the reason in the text.
    ReadError(String),
    /// The storage answered.
    Value(T),
}

/// The block that the storage has in a slot.
#[derive(Debug)]
pub enum ReadResultBlock {
    Removed,
    Dead,
    NotAvailable,
    Block(Vec<u8>),
}

/// The time of the block that the storage has in a slot.
#[derive(Debug, Clone, Copy, PartialEq, Eq, Structural)]
pub enum ReadResultBlockTime {
    Removed,
    Dead,
    NotAvailable,
    BlockTime(Option<i64>),
}

/// The blocks that the storage has in a range of slots.
#[derive(Debug)]
pub enum ReadResultBlocks {
    Removed,
    Blocks(Vec<u64>),
}

/// The height of the newest block that the storage has, and its slot.
#[derive(Debug, Clone, Copy, PartialEq, Eq, Structural)]
pub struct ReadResultBlockHeight {
    pub block_height: u64,
    pub slot: u64,
}

/// The transaction that the storage has of a signature.
#[derive(Debug)]
pub enum ReadResultTransaction {
    NotFound,
    Transaction { slot: u64, block_time: Option<i64>, bytes: Vec<u8>, index: u32 },
}

// ------------------------------------------------------- requests to other nodes

/// Why another node is asked.
#[derive(Debug, Clone, Copy, PartialEq, Eq, Structural)]
pub enum Reason {
    /// The slot fell outside the window that the storage keeps.
    BelowRetention,
    /// The storage removed the slot while the request was under way.
    Removed,
    /// The storage does not have it.
    NotFoundLocally,
    /// The storage has fewer results than asked for.
    IncompleteResults,
    /// The storage lacks a status, and the history is to be searched.
    MissingStatus,
    /// The method has no local source.
    Always,
}

impl Reason {
    /// The label that counts requests made for this reason.
    pub open spec fn text(self) -> Seq<char> {
        match self {
            Reason::BelowRetention => "below_retention"@,
            Reason::Removed => "removed"@,
            Reason::NotFoundLocally => "not_found_locally"@,
            Reason::IncompleteResults => "incomplete_results"@,
            Reason::MissingStatus => "missing_status"@,
            Reason::Always => "always"@,
        }
    }

    /// The label that counts requests made for this reason.
    pub fn label(&self) -> (r: &'static str)
        ensures
            r@ == self.text(),
    {
        match self {
            Reason::BelowRetention => "below_retention",
            Reason::Removed => "removed",
            Reason::NotFoundLocally => "not_found_locally",
            Reason::IncompleteResults => "incomplete_results",
            Reason::MissingStatus => "missing_status",
            Reason::Always => "always",
        }
    }
}

/// What is asked of another node.
#[allow(inconsistent_fields)]
#[derive(Debug)]
pub enum UpstreamCall {
    Block {
        slot: u64,
        commitment: Commitment,
        encoding: UiTransactionEncoding,
        encoding_options: BlockEncodingOptions,
    },
    Blocks { start_slot: u64, until: RpcRequestBlocksUntil, commitment: Commitment },
    BlocksParsed { start_slot: u64, limit: usize },
    BlockRewards { slot: u64 },
    BlockTime { slot: u64 },
    ClusterNodes,
    FirstAvailableBlock,
    LeaderSchedule { epoch: u64, slot: u64, is_processed: bool, identity: Option<String> },
    SignaturesForAddress {
        address: Pubkey,
        before: Option<Signature>,
        until: Option<Signature>,
        limit: usize,
        commitment: Commitment,
    },
    SignatureStatuses { signatures: Vec<Signature> },
    Transaction {
        signature: Signature,
        commitment: Commitment,
        encoding: UiTransactionEncoding,
        max_supported_transaction_version: Option<u8>,
    },
}

// ------------------------------------------------------- the next step

/// A block or a transaction to decode, encode and reply with.
#[derive(Debug)]
pub enum WorkRequest {
    Block(RpcRequestBlockWorkRequest),
    Transaction(RpcRequestTransactionWorkRequest),
}

/// A block to decode, encode and reply with.
#[derive(Debug)]
pub struct RpcRequestBlockWorkRequest {
    pub slot: u64,
    pub encoding: UiTransactionEncoding,
    pub encoding_options: BlockEncodingOptions,
    pub bytes: Vec<u8>,
}

/// A transaction to decode, encode and reply with.
#[derive(Debug)]
pub struct RpcRequestTransactionWorkRequest {
    pub encoding: UiTransactionEncoding,
    pub max_supported_transaction_version: Option<u8>,
    pub slot: u64,
    pub block_time: Option<i64>,
    pub bytes: Vec<u8>,
    pub index: u32,
}

/// What a request does next.
#[derive(Debug)]
pub enum Action {
    /// Answers, and is done.
    Reply(Reply),
    /// Fails, and is done.
    Fail(Failure),
    /// Asks the storage.
    Read(ReadRequest),
    /// Asks another node, for a reason.
    Upstream { index: usize, call: UpstreamCall, reason: Reason },
    /// Hands the answer to the workers that encode it.
    Encode(WorkRequest),
}

/// Why a request fails without an answer.
#[derive(Debug)]
pub enum Failure {
    RequestChannelClosed,
    ReplyChannelClosed,
    Timeout,
    ReadError(String),
    WorkersDisconnected,
    EncodedReplyLost,
    BlockDecode,
    BlockDecodeProtobuf,
    TransactionDecode,
    TransactionDecodeProtobuf,
    TransactionMissing(Signature),
    EncodePanicked(String),
    UpstreamMalformed,
    Upstream(String),
    PubkeyMalformed(String),
}

impl Failure {
    /// The message of a failure.
    pub open spec fn text(self) -> Seq<char> {
        match self {
            Failure::RequestChannelClosed => "request channel is closed"@,
            Failure::ReplyChannelClosed => "rx channel is closed"@,
            Failure::Timeout => "timeout"@,
            Failure::ReadError(error) => "read error: "@ + error@,
            Failure::WorkersDisconnected => "encode workers disconnected"@,
            Failure::EncodedReplyLost => "failed to get encoded request"@,
            Failure::BlockDecode => "failed to decode block"@,
            Failure::BlockDecodeProtobuf => "failed to decode block protobuf / bincode"@,
            Failure::TransactionDecode => "failed to decode transaction"@,
            Failure::TransactionDecodeProtobuf => "failed to decode transaction protobuf / bincode"@,
            Failure::TransactionMissing(signature) => "transaction "@ + keys::signature_text_of(
                signature,
            ) + " referenced by address index but not found in storage"@,
            Failure::EncodePanicked(error) => "encode task panicked: "@ + error@,
            Failure::UpstreamMalformed => "failed to parse json from upstream"@,
            Failure::Upstream(error) => error@,
            Failure::PubkeyMalformed(text) => "failed to parse "@ + text@,
        }
    }

    /// The message of a failure.
    pub fn message(&self) -> (r: String)
        ensures
            r@ == self.text(),
    {
        match self {
            Failure::RequestChannelClosed => String::from_str("request channel is closed"),
            Failure::ReplyChannelClosed => String::from_str("rx channel is closed"),
            Failure::Timeout => String::from_str("timeout"),
            Failure::ReadError(error) => {
                let mut message = String::from_str("read error: ");
                message.append(error.as_str());
                message
            },
            Failure::WorkersDisconnected => String::from_str("encode workers disconnected"),
            Failure::EncodedReplyLost => String::from_str("failed to get encoded request"),
            Failure::BlockDecode => String::from_str("failed to decode block"),
            Failure::BlockDecodeProtobuf => {
                String::from_str("failed to decode block protobuf / bincode")
            },
            Failure::TransactionDecode => String::from_str("failed to decode transaction"),
            Failure::TransactionDecodeProtobuf => {
                String::from_str("failed to decode transaction protobuf / bincode")
            },
            Failure::TransactionMissing(signature) => {
                let text = keys::signature_text(signature);
                let mut message = String::from_str("transaction ");
                message.append(text.as_str());
                message.append(" referenced by address index but not found in storage");
                message
            },
            Failure::EncodePanicked(error) => {
                let mut message = String::from_str("encode task panicked: ");
                message.append(error.as_str());
                message
            },
            Failure::UpstreamMalformed => String::from_str("failed to parse json from upstream"),
            Failure::Upstream(error) => {
                let mut message = String::from_str("");
                message.append(error.as_str());
                proof {
                    reveal_strlit("");
                    assert(""@ + error@ =~= error@);
                }
                message
            },
            Failure::PubkeyMalformed(text) => {
                let mut message = String::from_str("failed to parse ");
                message.append(text.as_str());
                message
            },
        }
    }
}

/// What the storage answered, or the failure that came instead.
pub open spec fn received_of<T>(read: Read<T>) -> Result<T, Failure> {
    match read {
        Read::NotSent => Err(Failure::RequestChannelClosed),
        Read::Lost => Err(Failure::ReplyChannelClosed),
        Read::Timeout => Err(Failure::Timeout),
        Read::ReadError(error) => Err(Failure::ReadError(error)),
        Read::Value(value) => Ok(value),
    }
}

/// What the storage answered, or the failure that came instead.
pub fn received<T>(read: Read<T>) -> (r: Result<T, Failure>)
    ensures
        r == received_of(read),
{
    match read {
        Read::NotSent => Err(Failure::RequestChannelClosed),
        Read::Lost => Err(Failure::ReplyChannelClosed),
        Read::Timeout => Err(Failure::Timeout),
        Read::ReadError(error) => Err(Failure::ReadError(error)),
        Read::Value(value) => Ok(value),
    }
}

} // verus!
