//! The options that requests have in common.

use crate::rpc::action::{TransactionDetails, UiTransactionEncoding};
use crate::rpc::jsonrpc::InvalidParams;
use crate::rpc::keys::{self, ParseError, Pubkey, Signature};
use crate::rpc::state::Commitment;
use vstd::prelude::*;

verus! {

/// The commitment of a request, and the slot that the node has to have reached.
#[derive(Debug, Clone, Copy, PartialEq, Eq, Structural)]
pub struct RpcContextConfig {
    pub commitment: Option<Commitment>,
    pub min_context_slot: Option<u64>,
}

impl RpcContextConfig {
    /// The options of a request that gives none.
    pub open spec fn unset() -> RpcContextConfig {
        RpcContextConfig { commitment: None, min_context_slot: None }
    }

    /// The options of a request that gives none.
    pub fn default() -> (r: RpcContextConfig)
        ensures
            r == RpcContextConfig::unset(),
    {
        RpcContextConfig { commitment: None, min_context_slot: None }
    }
}

/// The options of a request, or those of a request that gives none.
pub open spec fn context_or_default(config: Option<RpcContextConfig>) -> RpcContextConfig {
    match config {
        Some(config) => config,
        None => RpcContextConfig::unset(),
    }
}

/// The options of a request, or those of a request that gives none.
pub fn unwrap_context(config: Option<RpcContextConfig>) -> (r: RpcContextConfig)
    ensures
        r == context_or_default(config),
{
    match config {
        Some(config) => config,
        None => RpcContextConfig::default(),
    }
}

// ------------------------------------------------------- encodings

/// How a block is asked for.
#[derive(Debug, Clone, Copy, PartialEq, Eq, Structural)]
pub struct RpcBlockConfig {
    pub encoding: Option<UiTransactionEncoding>,
    pub transaction_details: Option<TransactionDetails>,
    pub rewards: Option<bool>,
    pub commitment: Option<Commitment>,
    pub max_supported_transaction_version: Option<u8>,
}

/// How a transaction is asked for.
#[derive(Debug, Clone, Copy, PartialEq, Eq, Structural)]
pub struct RpcTransactionConfig {
    pub encoding: Option<UiTransactionEncoding>,
    pub commitment: Option<Commitment>,
    pub max_supported_transaction_version: Option<u8>,
}

/// Options, or only an encoding as older clients give it.
#[derive(Debug)]
pub enum RpcEncodingConfigWrapper<T> {
    Deprecated(Option<UiTransactionEncoding>),
    Current(Option<T>),
}

impl RpcBlockConfig {
    /// The options that say only how to encode.
    pub open spec fn with_encoding(encoding: Option<UiTransactionEncoding>) -> RpcBlockConfig {
        RpcBlockConfig {
            encoding,
            transaction_details: None,
            rewards: None,
            commitment: None,
            max_supported_transaction_version: None,
        }
    }

    /// The options that a request gives.
    pub open spec fn of(wrapper: Option<RpcEncodingConfigWrapper<RpcBlockConfig>>) -> RpcBlockConfig {
        match wrapper {
            Some(RpcEncodingConfigWrapper::Deprecated(encoding)) => RpcBlockConfig::with_encoding(
                encoding,
            ),
            Some(RpcEncodingConfigWrapper::Current(Some(config))) => config,
            _ => RpcBlockConfig::with_encoding(None),
        }
    }

    /// The options that a request gives.
    pub fn current(wrapper: Option<RpcEncodingConfigWrapper<RpcBlockConfig>>) -> (r: RpcBlockConfig)
        ensures
            r == RpcBlockConfig::of(wrapper),
    {
        let encoding: Option<UiTransactionEncoding> = match wrapper {
            Some(RpcEncodingConfigWrapper::Deprecated(encoding)) => encoding,
            Some(RpcEncodingConfigWrapper::Current(Some(config))) => {
                return config;
            },
            _ => None,
        };
        RpcBlockConfig {
            encoding,
            transaction_details: None,
            rewards: None,
            commitment: None,
            max_supported_transaction_version: None,
        }
    }
}

impl RpcTransactionConfig {
    /// The options that say only how to encode.
    pub open spec fn with_encoding(encoding: Option<UiTransactionEncoding>) -> RpcTransactionConfig {
        RpcTransactionConfig { encoding, commitment: None, max_supported_transaction_version: None }
    }

    /// The options that a request gives.
    pub open spec fn of(
        wrapper: Option<RpcEncodingConfigWrapper<RpcTransactionConfig>>,
    ) -> RpcTransactionConfig {
        match wrapper {
            Some(RpcEncodingConfigWrapper::Deprecated(encoding)) => {
                RpcTransactionConfig::with_encoding(encoding)
            },
            Some(RpcEncodingConfigWrapper::Current(Some(config))) => config,
            _ => RpcTransactionConfig::with_encoding(None),
        }
    }

    /// The options that a request gives.
    pub fn current(
        wrapper: Option<RpcEncodingConfigWrapper<RpcTransactionConfig>>,
    ) -> (r: RpcTransactionConfig)
        ensures
            r == RpcTransactionConfig::of(wrapper),
    {
        let encoding: Option<UiTransactionEncoding> = match wrapper {
            Some(RpcEncodingConfigWrapper::Deprecated(encoding)) => encoding,
            Some(RpcEncodingConfigWrapper::Current(Some(config))) => {
                return config;
            },
            _ => None,
        };
        RpcTransactionConfig { encoding, commitment: None, max_supported_transaction_version: None }
    }
}

/// The encoding of a request: JSON where it names none.
pub open spec fn encoding_or_default(encoding: Option<UiTransactionEncoding>) -> UiTransactionEncoding {
    match encoding {
        Some(encoding) => encoding,
        None => UiTransactionEncoding::Json,
    }
}

/// The encoding of a request: JSON where it names none.
pub fn unwrap_encoding(encoding: Option<UiTransactionEncoding>) -> (r: UiTransactionEncoding)
    ensures
        r == encoding_or_default(encoding),
{
    match encoding {
        Some(encoding) => encoding,
        None => UiTransactionEncoding::Json,
    }
}

// ------------------------------------------------------- addresses and signatures

/// What comes of an address as it was read.
pub open spec fn checked_pubkey(parsed: Result<Pubkey, ParseError>) -> Result<Pubkey, InvalidParams> {
    match parsed {
        Ok(key) => Ok(key),
        Err(error) => Err(InvalidParams::InvalidParam(error)),
    }
}

/// What comes of a signature as it was read.
pub open spec fn checked_signature(parsed: Result<Signature, ParseError>) -> Result<
    Signature,
    InvalidParams,
> {
    match parsed {
        Ok(signature) => Ok(signature),
        Err(error) => Err(InvalidParams::InvalidParam(error)),
    }
}

/// What comes of an address as it was read.
pub fn check_pubkey(parsed: Result<Pubkey, ParseError>) -> (r: Result<Pubkey, InvalidParams>)
    ensures
        r == checked_pubkey(parsed),
{
    match parsed {
        Ok(key) => Ok(key),
        Err(error) => Err(InvalidParams::InvalidParam(error)),
    }
}

/// What comes of a signature as it was read.
pub fn check_signature(parsed: Result<Signature, ParseError>) -> (r: Result<Signature, InvalidParams>)
    ensures
        r == checked_signature(parsed),
{
    match parsed {
        Ok(signature) => Ok(signature),
        Err(error) => Err(InvalidParams::InvalidParam(error)),
    }
}

/// Reads an address.
pub fn verify_pubkey(input: &str) -> (r: Result<Pubkey, InvalidParams>)
    ensures
        r == checked_pubkey(keys::pubkey_of(input@)),
{
    check_pubkey(keys::parse_pubkey(input))
}

/// Reads a signature.
pub fn verify_signature(input: &str) -> (r: Result<Signature, InvalidParams>)
    ensures
        r == checked_signature(keys::signature_of(input@)),
{
    check_signature(keys::parse_signature(input))
}

} // verus!
