//! Replies: what a request is answered, and the bytes of the answer.

use crate::rpc::keys::ParseError;
use crate::text;
use jsonrpsee_types::Id as OutsideId;
use richat_shared::jsonrpc::helpers::{
    jsonrpc_error_invalid_params, jsonrpc_response_error, jsonrpc_response_error_custom,
    jsonrpc_response_success,
};
use serde_json::value::RawValue;
use serde_json::Value;
use solana_rpc_client_api::custom_error::RpcCustomError as OutsideError;
use solana_rpc_client_api::response::{
    Response as OutsideResponse, RpcBlockhash, RpcInflationReward as OutsideReward,
    RpcPrioritizationFee as OutsideFee, RpcResponseContext, RpcVersionInfo,
};
use vstd::prelude::*;

verus! {

/// The identifier of a request.
#[derive(Debug)]
pub enum Id {
    Null,
    Number(u64),
    Str(String),
}

/// An identifier, with its text as a sequence of characters.
pub enum IdView {
    Null,
    Number(u64),
    Str(Seq<char>),
}

impl View for Id {
    type V = IdView;

    open spec fn view(&self) -> IdView {
        match self {
            Id::Null => IdView::Null,
            Id::Number(n) => IdView::Number(*n),
            Id::Str(s) => IdView::Str(s@),
        }
    }
}

// ------------------------------------------------------- errors

/// The errors that the Solana RPC interface defines, as far as they are used.
#[derive(Debug, Clone, Copy, PartialEq, Eq, Structural)]
pub enum RpcCustomError {
    BlockCleanedUp { slot: u64, first_available_block: u64 },
    BlockNotAvailable { slot: u64 },
    NodeUnhealthy { num_slots_behind: Option<u64> },
    SlotSkipped { slot: u64 },
    LongTermStorageSlotSkipped { slot: u64 },
    TransactionHistoryNotAvailable,
    UnsupportedTransactionVersion(u8),
    MinContextSlotNotReached { context_slot: u64 },
    EpochRewardsPeriodActive {
        slot: u64,
        current_block_height: u64,
        rewards_complete_block_height: u64,
    },
}

/// Why the parameters of a request are refused.
#[allow(inconsistent_fields)]
#[derive(Debug, Clone, Copy, PartialEq, Eq, Structural)]
pub enum InvalidParams {
    /// The commitment is `processed` where at least `confirmed` is needed.
    CommitmentBelowConfirmed,
    /// An address or a signature cannot be read.
    InvalidParam(ParseError),
    /// A block hash cannot be read.
    InvalidBlockhash(ParseError),
    /// A limit is zero or above `max`.
    InvalidLimit { max: usize },
    /// More slots than `max` are asked for.
    SlotRangeTooLarge { max: u64 },
    /// More blocks than `max` are asked for.
    LimitTooLarge { max: u64 },
    /// More addresses or signatures than `max` are given.
    TooManyInputs { max: usize },
    /// A percentile is above 10000 basis points.
    PercentileTooBig,
    /// A pagination token cannot be read.
    InvalidPaginationToken,
}

/// The name of a parse error.
pub open spec fn parse_error_text(error: ParseError) -> Seq<char> {
    match error {
        ParseError::WrongSize => "WrongSize"@,
        ParseError::Invalid => "Invalid"@,
    }
}

/// The name of a parse error.
fn parse_error_name(error: ParseError) -> (r: &'static str)
    ensures
        r@ == parse_error_text(error),
{
    match error {
        ParseError::WrongSize => "WrongSize",
        ParseError::Invalid => "Invalid",
    }
}

impl InvalidParams {
    /// The message that tells a client why its parameters are refused.
    pub open spec fn text(self) -> Seq<char> {
        match self {
            InvalidParams::CommitmentBelowConfirmed => {
                "Method does not support commitment below `confirmed`"@
            },
            InvalidParams::InvalidParam(error) => "Invalid param: "@ + parse_error_text(error),
            InvalidParams::InvalidBlockhash(error) => parse_error_text(error),
            InvalidParams::InvalidLimit { max } => {
                "Invalid limit; max "@ + text::decimal(max as nat)
            },
            InvalidParams::SlotRangeTooLarge { max } => {
                "Slot range too large; max "@ + text::decimal(max as nat)
            },
            InvalidParams::LimitTooLarge { max } => {
                "Limit too large; max "@ + text::decimal(max as nat)
            },
            InvalidParams::TooManyInputs { max } => {
                "Too many inputs provided; max "@ + text::decimal(max as nat)
            },
            InvalidParams::PercentileTooBig => "Percentile is too big; max value is 10000"@,
            InvalidParams::InvalidPaginationToken => "Invalid paginationToken"@,
        }
    }

    /// The message that tells a client why its parameters are refused.
    pub fn message(&self) -> (r: String)
        ensures
            r@ == self.text(),
    {
        match self {
            InvalidParams::CommitmentBelowConfirmed => {
                String::from_str("Method does not support commitment below `confirmed`")
            },
            InvalidParams::InvalidParam(error) => {
                let mut message = String::from_str("Invalid param: ");
                message.append(parse_error_name(*error));
                message
            },
            InvalidParams::InvalidBlockhash(error) => String::from_str(parse_error_name(*error)),
            InvalidParams::InvalidLimit { max } => {
                text::with_number("Invalid limit; max ", *max as u64)
            },
            InvalidParams::SlotRangeTooLarge { max } => {
                text::with_number("Slot range too large; max ", *max)
            },
            InvalidParams::LimitTooLarge { max } => {
                text::with_number("Limit too large; max ", *max)
            },
            InvalidParams::TooManyInputs { max } => {
                text::with_number("Too many inputs provided; max ", *max as u64)
            },
            InvalidParams::PercentileTooBig => {
                String::from_str("Percentile is too big; max value is 10000")
            },
            InvalidParams::InvalidPaginationToken => String::from_str("Invalid paginationToken"),
        }
    }
}

/// Why parameters are refused where there should be none.
#[derive(Debug)]
pub enum UnexpectedParams {
    /// There are some: their JSON text.
    Present(String),
    /// They are not JSON: what is wrong with them.
    Malformed(String),
}

/// A refusal, with its text as a sequence of characters.
pub enum UnexpectedParamsView {
    Present(Seq<char>),
    Malformed(Seq<char>),
}

impl View for UnexpectedParams {
    type V = UnexpectedParamsView;

    open spec fn view(&self) -> UnexpectedParamsView {
        match self {
            UnexpectedParams::Present(text) => UnexpectedParamsView::Present(text@),
            UnexpectedParams::Malformed(text) => UnexpectedParamsView::Malformed(text@),
        }
    }
}

// ------------------------------------------------------- replies

/// The reward of an address in an epoch.
#[derive(Debug, Clone, Copy, PartialEq, Eq, Structural)]
pub struct RpcInflationReward {
    pub epoch: u64,
    pub effective_slot: u64,
    pub amount: u64,
    pub post_balance: u64,
    pub commission: Option<u8>,
    pub commission_bps: Option<u16>,
}

/// The fee that transactions of a slot paid to be prioritized.
#[derive(Debug, Clone, Copy, PartialEq, Eq, Structural)]
pub struct RpcPrioritizationFee {
    pub slot: u64,
    pub prioritization_fee: u64,
}

/// The result that a successful reply carries.
#[derive(Debug)]
pub enum Payload {
    Null,
    Number(u64),
    Timestamp(i64),
    Text(String),
    Slots(Vec<u64>),
    Rewards(Vec<Option<RpcInflationReward>>),
    Fees(Vec<RpcPrioritizationFee>),
    Blockhash { slot: u64, blockhash: String, last_valid_block_height: u64 },
    BlockhashValid { slot: u64, is_valid: bool },
    Version { solana_core: String, feature_set: u32 },
    /// Signatures of an address, each as a JSON text.
    Signatures(Vec<String>),
    /// Statuses of signatures as of a slot, each as a JSON text.
    Statuses { slot: u64, statuses: Vec<Option<String>> },
}

/// A result, with its texts and lists as sequences.
#[verifier::ext_equal]
pub enum PayloadView {
    Null,
    Number(u64),
    Timestamp(i64),
    Text(Seq<char>),
    Slots(Seq<u64>),
    Rewards(Seq<Option<RpcInflationReward>>),
    Fees(Seq<RpcPrioritizationFee>),
    Blockhash { slot: u64, blockhash: Seq<char>, last_valid_block_height: u64 },
    BlockhashValid { slot: u64, is_valid: bool },
    Version { solana_core: Seq<char>, feature_set: u32 },
    Signatures(Seq<Seq<char>>),
    Statuses { slot: u64, statuses: Seq<Option<Seq<char>>> },
}

/// The texts of a list, as sequences of characters.
pub open spec fn texts(list: Seq<String>) -> Seq<Seq<char>> {
    Seq::new(list.len(), |i: int| list[i]@)
}

/// The texts of a list with gaps, as sequences of characters.
pub open spec fn optional_texts(list: Seq<Option<String>>) -> Seq<Option<Seq<char>>> {
    Seq::new(
        list.len(),
        |i: int|
            match list[i] {
                Some(text) => Some(text@),
                None => None,
            },
    )
}

impl View for Payload {
    type V = PayloadView;

    open spec fn view(&self) -> PayloadView {
        match self {
            Payload::Null => PayloadView::Null,
            Payload::Number(n) => PayloadView::Number(*n),
            Payload::Timestamp(n) => PayloadView::Timestamp(*n),
            Payload::Text(text) => PayloadView::Text(text@),
            Payload::Slots(slots) => PayloadView::Slots(slots@),
            Payload::Rewards(rewards) => PayloadView::Rewards(rewards@),
            Payload::Fees(fees) => PayloadView::Fees(fees@),
            Payload::Blockhash { slot, blockhash, last_valid_block_height } => {
                PayloadView::Blockhash {
                    slot: *slot,
                    blockhash: blockhash@,
                    last_valid_block_height: *last_valid_block_height,
                }
            },
            Payload::BlockhashValid { slot, is_valid } => {
                PayloadView::BlockhashValid { slot: *slot, is_valid: *is_valid }
            },
            Payload::Version { solana_core, feature_set } => {
                PayloadView::Version { solana_core: solana_core@, feature_set: *feature_set }
            },
            Payload::Signatures(signatures) => PayloadView::Signatures(texts(signatures@)),
            Payload::Statuses { slot, statuses } => {
                PayloadView::Statuses { slot: *slot, statuses: optional_texts(statuses@) }
            },
        }
    }
}

/// What a request is answered.
#[derive(Debug)]
pub enum Reply {
    Success(Payload),
    InvalidParams(InvalidParams),
    UnexpectedParams(UnexpectedParams),
    Custom(RpcCustomError),
    /// The bytes of an answer that another node gave.
    Forward(Vec<u8>),
}

/// An answer, with its texts and lists as sequences.
#[verifier::ext_equal]
pub enum ReplyView {
    Success(PayloadView),
    InvalidParams(InvalidParams),
    UnexpectedParams(UnexpectedParamsView),
    Custom(RpcCustomError),
    Forward(Seq<u8>),
}

impl View for Reply {
    type V = ReplyView;

    open spec fn view(&self) -> ReplyView {
        match self {
            Reply::Success(payload) => ReplyView::Success(payload@),
            Reply::InvalidParams(error) => ReplyView::InvalidParams(*error),
            Reply::UnexpectedParams(error) => ReplyView::UnexpectedParams(error@),
            Reply::Custom(error) => ReplyView::Custom(*error),
            Reply::Forward(bytes) => ReplyView::Forward(bytes@),
        }
    }
}

// ------------------------------------------------------- the bytes of an answer

/// The bytes that `jsonrpc_response_success` makes of a result.
pub uninterp spec fn success_response(id: IdView, payload: PayloadView) -> Seq<u8>;

/// The bytes that `jsonrpc_response_error` makes of the error that
/// `jsonrpc_error_invalid_params` makes of a message and its data.
pub uninterp spec fn invalid_params_response(
    id: IdView,
    message: Seq<char>,
    data: Option<Seq<char>>,
) -> Seq<u8>;

/// The bytes that `jsonrpc_response_error_custom` makes of an error.
pub uninterp spec fn custom_error_response(id: IdView, error: RpcCustomError) -> Seq<u8>;

/// The bytes of an answer.
pub open spec fn response(id: IdView, reply: ReplyView) -> Seq<u8> {
    match reply {
        ReplyView::Success(payload) => success_response(id, payload),
        ReplyView::InvalidParams(error) => invalid_params_response(id, error.text(), None),
        ReplyView::UnexpectedParams(UnexpectedParamsView::Present(text)) => {
            invalid_params_response(id, "No parameters were expected"@, Some(text))
        },
        ReplyView::UnexpectedParams(UnexpectedParamsView::Malformed(text)) => {
            invalid_params_response(id, "Invalid params"@, Some(text))
        },
        ReplyView::Custom(error) => custom_error_response(id, error),
        ReplyView::Forward(bytes) => bytes,
    }
}

/// Calls `jsonrpc_response_success` of `richat_shared` with no value: the
/// bytes of a success response whose result is null.
#[verifier::external_body]
fn success_null(id: &Id) -> (r: Vec<u8>)
    ensures
        r@ == success_response(id@, PayloadView::Null),
{
    let id = match id {
        Id::Null => OutsideId::Null,
        Id::Number(n) => OutsideId::Number(*n),
        Id::Str(s) => OutsideId::Str(s.as_str().into()),
    };
    jsonrpc_response_success(id, None::<()>)
}

/// Calls `jsonrpc_response_success` of `richat_shared` with an unsigned
/// number.
#[verifier::external_body]
fn success_number(id: &Id, n: u64) -> (r: Vec<u8>)
    ensures
        r@ == success_response(id@, PayloadView::Number(n)),
{
    let id = match id {
        Id::Null => OutsideId::Null,
        Id::Number(n) => OutsideId::Number(*n),
        Id::Str(s) => OutsideId::Str(s.as_str().into()),
    };
    jsonrpc_response_success(id, n)
}

/// Calls `jsonrpc_response_success` of `richat_shared` with a time, in
/// seconds since the Unix epoch.
#[verifier::external_body]
fn success_timestamp(id: &Id, n: i64) -> (r: Vec<u8>)
    ensures
        r@ == success_response(id@, PayloadView::Timestamp(n)),
{
    let id = match id {
        Id::Null => OutsideId::Null,
        Id::Number(n) => OutsideId::Number(*n),
        Id::Str(s) => OutsideId::Str(s.as_str().into()),
    };
    jsonrpc_response_success(id, n)
}

/// Calls `jsonrpc_response_success` of `richat_shared` with a text.
#[verifier::external_body]
fn success_text(id: &Id, text: &str) -> (r: Vec<u8>)
    ensures
        r@ == success_response(id@, PayloadView::Text(text@)),
{
    let id = match id {
        Id::Null => OutsideId::Null,
        Id::Number(n) => OutsideId::Number(*n),
        Id::Str(s) => OutsideId::Str(s.as_str().into()),
    };
    jsonrpc_response_success(id, text)
}

/// Calls `jsonrpc_response_success` of `richat_shared` with a list of slots.
#[verifier::external_body]
fn success_slots(id: &Id, slots: &Vec<u64>) -> (r: Vec<u8>)
    ensures
        r@ == success_response(id@, PayloadView::Slots(slots@)),
{
    let id = match id {
        Id::Null => OutsideId::Null,
        Id::Number(n) => OutsideId::Number(*n),
        Id::Str(s) => OutsideId::Str(s.as_str().into()),
    };
    jsonrpc_response_success(id, slots)
}

/// Calls `jsonrpc_response_success` of `richat_shared` with a list of rewards,
/// each as the `RpcInflationReward` of `solana_rpc_client_api`.
#[verifier::external_body]
fn success_rewards(id: &Id, rewards: &Vec<Option<RpcInflationReward>>) -> (r: Vec<u8>)
    ensures
        r@ == success_response(id@, PayloadView::Rewards(rewards@)),
{
    let id = match id {
        Id::Null => OutsideId::Null,
        Id::Number(n) => OutsideId::Number(*n),
        Id::Str(s) => OutsideId::Str(s.as_str().into()),
    };
    let convert = |r: RpcInflationReward| OutsideReward {
        epoch: r.epoch, effective_slot: r.effective_slot, amount: r.amount,
        post_balance: r.post_balance, commission: r.commission, commission_bps: r.commission_bps,
    };
    let rewards: Vec<Option<OutsideReward>> = rewards.iter().map(|r| r.map(convert)).collect();
    jsonrpc_response_success(id, &rewards)
}

/// Calls `jsonrpc_response_success` of `richat_shared` with a list of fees,
/// each as the `RpcPrioritizationFee` of `solana_rpc_client_api`.
#[verifier::external_body]
fn success_fees(id: &Id, fees: &Vec<RpcPrioritizationFee>) -> (r: Vec<u8>)
    ensures
        r@ == success_response(id@, PayloadView::Fees(fees@)),
{
    let id = match id {
        Id::Null => OutsideId::Null,
        Id::Number(n) => OutsideId::Number(*n),
        Id::Str(s) => OutsideId::Str(s.as_str().into()),
    };
    let convert = |fee: &RpcPrioritizationFee| OutsideFee {
        slot: fee.slot, prioritization_fee: fee.prioritization_fee,
    };
    let fees: Vec<OutsideFee> = fees.iter().map(convert).collect();
    jsonrpc_response_success(id, &fees)
}

/// Calls `jsonrpc_response_success` of `richat_shared` with a block hash as of
/// a slot, as the `Response` and `RpcBlockhash` of `solana_rpc_client_api`.
#[verifier::external_body]
fn success_blockhash(id: &Id, slot: u64, blockhash: &str, last_valid_block_height: u64) -> (r: Vec<u8>)
    ensures
        r@ == success_response(
            id@,
            PayloadView::Blockhash { slot, blockhash: blockhash@, last_valid_block_height },
        ),
{
    let id = match id {
        Id::Null => OutsideId::Null,
        Id::Number(n) => OutsideId::Number(*n),
        Id::Str(s) => OutsideId::Str(s.as_str().into()),
    };
    let value = RpcBlockhash { blockhash: blockhash.to_string(), last_valid_block_height };
    jsonrpc_response_success(id, &OutsideResponse { context: RpcResponseContext::new(slot), value })
}

/// Calls `jsonrpc_response_success` of `richat_shared` with the validity of a
/// block hash as of a slot, as the `Response` of `solana_rpc_client_api`.
#[verifier::external_body]
fn success_validity(id: &Id, slot: u64, is_valid: bool) -> (r: Vec<u8>)
    ensures
        r@ == success_response(id@, PayloadView::BlockhashValid { slot, is_valid }),
{
    let id = match id {
        Id::Null => OutsideId::Null,
        Id::Number(n) => OutsideId::Number(*n),
        Id::Str(s) => OutsideId::Str(s.as_str().into()),
    };
    let context = RpcResponseContext::new(slot);
    jsonrpc_response_success(id, &OutsideResponse { context, value: is_valid })
}

/// Calls `jsonrpc_response_success` of `richat_shared` with a version, as the
/// `RpcVersionInfo` of `solana_rpc_client_api`.
#[verifier::external_body]
fn success_version(id: &Id, solana_core: &str, feature_set: u32) -> (r: Vec<u8>)
    ensures
        r@ == success_response(
            id@,
            PayloadView::Version { solana_core: solana_core@, feature_set },
        ),
{
    let id = match id {
        Id::Null => OutsideId::Null,
        Id::Number(n) => OutsideId::Number(*n),
        Id::Str(s) => OutsideId::Str(s.as_str().into()),
    };
    let version = RpcVersionInfo { solana_core: solana_core.into(), feature_set: Some(feature_set) };
    jsonrpc_response_success(id, serde_json::to_value(version).ok())
}

/// Calls `jsonrpc_response_success` of `richat_shared` with a list of JSON
/// texts, which stand in the response as they are; null stands for a text
/// that is not JSON.
#[verifier::external_body]
fn success_signatures(id: &Id, signatures: &Vec<String>) -> (r: Vec<u8>)
    ensures
        r@ == success_response(id@, PayloadView::Signatures(texts(signatures@))),
{
    let id = match id {
        Id::Null => OutsideId::Null,
        Id::Number(n) => OutsideId::Number(*n),
        Id::Str(s) => OutsideId::Str(s.as_str().into()),
    };
    let convert = |json: &String| RawValue::from_string(json.clone()).ok();
    let values: Vec<Option<Box<RawValue>>> = signatures.iter().map(convert).collect();
    jsonrpc_response_success(id, &values)
}

/// Calls `jsonrpc_response_success` of `richat_shared` with a list of JSON
/// texts as of a slot, as the `Response` of `solana_rpc_client_api`. The texts
/// stand in the response as they are; null stands for a gap and for a text
/// that is not JSON.
#[verifier::external_body]
fn success_statuses(id: &Id, slot: u64, statuses: &Vec<Option<String>>) -> (r: Vec<u8>)
    ensures
        r@ == success_response(
            id@,
            PayloadView::Statuses { slot, statuses: optional_texts(statuses@) },
        ),
{
    let id = match id {
        Id::Null => OutsideId::Null,
        Id::Number(n) => OutsideId::Number(*n),
        Id::Str(s) => OutsideId::Str(s.as_str().into()),
    };
    let convert = |json: &Option<String>| RawValue::from_string(json.clone()?).ok();
    let value: Vec<Option<Box<RawValue>>> = statuses.iter().map(convert).collect();
    jsonrpc_response_success(id, &OutsideResponse { context: RpcResponseContext::new(slot), value })
}

/// Calls `jsonrpc_error_invalid_params` and `jsonrpc_response_error` of
/// `richat_shared`: the bytes of an error response with the code for invalid
/// parameters, a message and, where there are any, its data.
#[verifier::external_body]
fn invalid_params(id: &Id, message: &str, data: Option<&str>) -> (r: Vec<u8>)
    ensures
        r@ == invalid_params_response(
            id@,
            message@,
            match data {
                Some(text) => Some(text@),
                None => None,
            },
        ),
{
    let id = match id {
        Id::Null => OutsideId::Null,
        Id::Number(n) => OutsideId::Number(*n),
        Id::Str(s) => OutsideId::Str(s.as_str().into()),
    };
    jsonrpc_response_error(id, jsonrpc_error_invalid_params(message, data))
}

/// Calls `jsonrpc_response_error_custom` of `richat_shared`: the bytes of an
/// error response with the code, message and data that
/// `solana_rpc_client_api` gives to the error.
#[verifier::external_body]
fn custom_error(id: &Id, error: RpcCustomError) -> (r: Vec<u8>)
    ensures
        r@ == custom_error_response(id@, error),
{
    let id = match id {
        Id::Null => OutsideId::Null, Id::Number(n) => OutsideId::Number(*n), Id::Str(s) => OutsideId::Str(s.into()),
    };
    jsonrpc_response_error_custom(id, match error {
        RpcCustomError::BlockCleanedUp { slot, first_available_block } => OutsideError::BlockCleanedUp { slot, first_available_block },
        RpcCustomError::BlockNotAvailable { slot } => OutsideError::BlockNotAvailable { slot },
        RpcCustomError::NodeUnhealthy { num_slots_behind } => OutsideError::NodeUnhealthy { num_slots_behind },
        RpcCustomError::SlotSkipped { slot } => OutsideError::SlotSkipped { slot },
        RpcCustomError::LongTermStorageSlotSkipped { slot } => OutsideError::LongTermStorageSlotSkipped { slot },
        RpcCustomError::TransactionHistoryNotAvailable => OutsideError::TransactionHistoryNotAvailable,
        RpcCustomError::UnsupportedTransactionVersion(v) => OutsideError::UnsupportedTransactionVersion(v),
        RpcCustomError::MinContextSlotNotReached { context_slot } => OutsideError::MinContextSlotNotReached { context_slot },
        RpcCustomError::EpochRewardsPeriodActive { slot, current_block_height, rewards_complete_block_height } => OutsideError::EpochRewardsPeriodActive { slot, current_block_height, rewards_complete_block_height },
    })
}

/// The bytes of an answer.
pub fn respond(id: &Id, reply: Reply) -> (r: Vec<u8>)
    ensures
        r@ == response(id@, reply@),
{
    match reply {
        Reply::Success(Payload::Null) => success_null(id),
        Reply::Success(Payload::Number(n)) => success_number(id, n),
        Reply::Success(Payload::Timestamp(n)) => success_timestamp(id, n),
        Reply::Success(Payload::Text(text)) => success_text(id, text.as_str()),
        Reply::Success(Payload::Slots(slots)) => success_slots(id, &slots),
        Reply::Success(Payload::Rewards(rewards)) => success_rewards(id, &rewards),
        Reply::Success(Payload::Fees(fees)) => success_fees(id, &fees),
        Reply::Success(Payload::Blockhash { slot, blockhash, last_valid_block_height }) => {
            success_blockhash(id, slot, blockhash.as_str(), last_valid_block_height)
        },
        Reply::Success(Payload::BlockhashValid { slot, is_valid }) => {
            success_validity(id, slot, is_valid)
        },
        Reply::Success(Payload::Version { solana_core, feature_set }) => {
            success_version(id, solana_core.as_str(), feature_set)
        },
        Reply::Success(Payload::Signatures(signatures)) => success_signatures(id, &signatures),
        Reply::Success(Payload::Statuses { slot, statuses }) => {
            success_statuses(id, slot, &statuses)
        },
        Reply::InvalidParams(error) => {
            let message = error.message();
            invalid_params(id, message.as_str(), None)
        },
        Reply::UnexpectedParams(UnexpectedParams::Present(text)) => {
            invalid_params(id, "No parameters were expected", Some(text.as_str()))
        },
        Reply::UnexpectedParams(UnexpectedParams::Malformed(text)) => {
            invalid_params(id, "Invalid params", Some(text.as_str()))
        },
        Reply::Custom(error) => custom_error(id, error),
        Reply::Forward(bytes) => bytes,
    }
}

// ------------------------------------------------------- parameters where there should be none

/// What a text is as JSON.
#[derive(Debug)]
pub enum JsonText {
    Null,
    /// An array of so many items, and its JSON text.
    Array(usize, String),
    /// Anything else that is JSON, and its JSON text.
    Other(String),
    /// Not JSON, and what is wrong with it.
    Malformed(String),
}

/// What a text is as JSON, with the texts as sequences of characters.
pub enum JsonTextView {
    Null,
    Array(usize, Seq<char>),
    Other(Seq<char>),
    Malformed(Seq<char>),
}

impl View for JsonText {
    type V = JsonTextView;

    open spec fn view(&self) -> JsonTextView {
        match self {
            JsonText::Null => JsonTextView::Null,
            JsonText::Array(len, text) => JsonTextView::Array(*len, text@),
            JsonText::Other(text) => JsonTextView::Other(text@),
            JsonText::Malformed(text) => JsonTextView::Malformed(text@),
        }
    }
}

/// What `serde_json::from_str` makes of a text, as a JSON value.
pub uninterp spec fn json_of(text: Seq<char>) -> JsonTextView;

/// Calls `serde_json::from_str` for a `Value`. What comes out depends on the
/// text alone; the text `null` is the value null.
#[verifier::external_body]
fn parse_json(text: &str) -> (r: JsonText)
    ensures
        r@ == json_of(text@),
        text@ == "null"@ ==> r is Null,
{
    match serde_json::from_str::<Value>(text) {
        Ok(Value::Null) => JsonText::Null,
        Ok(Value::Array(items)) => JsonText::Array(items.len(), Value::Array(items).to_string()),
        Ok(value) => JsonText::Other(value.to_string()),
        Err(error) => JsonText::Malformed(error.to_string()),
    }
}

/// The refusal of parameters that came out as `json`, or none where that
/// stands for no parameters: null or an empty array.
pub open spec fn refused_params(json: JsonTextView) -> Option<UnexpectedParamsView> {
    match json {
        JsonTextView::Null => None,
        JsonTextView::Array(len, text) => {
            if len == 0 {
                None
            } else {
                Some(UnexpectedParamsView::Present(text))
            }
        },
        JsonTextView::Other(text) => Some(UnexpectedParamsView::Present(text)),
        JsonTextView::Malformed(text) => Some(UnexpectedParamsView::Malformed(text)),
    }
}

/// Whether parameters that came out as `json` stand for no parameters.
pub fn check_no_params(json: JsonText) -> (r: Result<(), Reply>)
    ensures
        r is Ok <==> refused_params(json@) is None,
        r matches Err(reply) ==> refused_params(json@) matches Some(refusal)
            && reply@ == ReplyView::UnexpectedParams(refusal),
{
    match json {
        JsonText::Null => Ok(()),
        JsonText::Array(len, text) => {
            if len == 0 {
                Ok(())
            } else {
                Err(Reply::UnexpectedParams(UnexpectedParams::Present(text)))
            }
        },
        JsonText::Other(text) => Err(Reply::UnexpectedParams(UnexpectedParams::Present(text))),
        JsonText::Malformed(text) => Err(Reply::UnexpectedParams(UnexpectedParams::Malformed(text))),
    }
}

/// The refusal of the parameters of a request that should have none.
pub open spec fn unexpected_params(params: Option<&str>) -> Option<UnexpectedParamsView> {
    match params {
        None => None,
        Some(text) => refused_params(json_of(text@)),
    }
}

/// Whether a request that should have no parameters has none.
pub fn no_params_expected(params: Option<&str>) -> (r: Result<(), Reply>)
    ensures
        r is Ok <==> unexpected_params(params) is None,
        r matches Err(reply) ==> unexpected_params(params) matches Some(refusal)
            && reply@ == ReplyView::UnexpectedParams(refusal),
{
    let text: &str = match params {
        Some(text) => text,
        None => "null",
    };
    check_no_params(parse_json(text))
}

} // verus!
