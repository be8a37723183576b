//! The parameters of a request, and what they come to.

use crate::rpc::action::UiTransactionEncoding;
use crate::rpc::gtfa::filter::{
    GtfaComparison, GtfaCursor, GtfaFilters, GtfaSignatureFilter, GtfaTokenAccountsFilter,
};
use crate::rpc::jsonrpc::{InvalidParams, Reply};
use crate::rpc::keys::{self, ParseError, Pubkey};
use crate::rpc::state::{self, Commitment, State, StoredSlots};
use vstd::prelude::*;

verus! {

/// How much of each transaction is listed.
#[derive(Debug, Clone, Copy, PartialEq, Eq, Structural)]
pub enum GtfaTransactionDetails {
    Signatures,
    Full,
}

/// The order in which transactions are listed.
#[derive(Debug, Clone, Copy, PartialEq, Eq, Structural)]
pub enum GtfaSortOrder {
    Desc,
    Asc,
}

/// The options of a request.
#[derive(Debug)]
pub struct GtfaOptions {
    pub transaction_details: GtfaTransactionDetails,
    pub sort_order: GtfaSortOrder,
    pub limit: Option<usize>,
    pub pagination_token: Option<String>,
    pub commitment: Option<Commitment>,
    pub min_context_slot: Option<u64>,
    pub encoding: Option<UiTransactionEncoding>,
    pub max_supported_transaction_version: Option<u8>,
    pub filters: Option<GtfaFilters>,
}

/// A request for the transactions of an address.
#[derive(Debug)]
pub struct RpcRequestTransactionsForAddress {
    pub address: Pubkey,
    pub transaction_details: GtfaTransactionDetails,
    pub desc: bool,
    pub limit: usize,
    pub pagination_token: Option<GtfaCursor>,
    pub commitment: Commitment,
    pub encoding: UiTransactionEncoding,
    pub max_supported_transaction_version: Option<u8>,
    pub filters: Option<GtfaFilters>,
    pub token_accounts: GtfaTokenAccountsFilter,
    pub slot_filter_lower: Option<u64>,
    pub slot_filter_upper: Option<u64>,
    pub block_time_filter_lower: Option<i64>,
    pub block_time_filter_upper: Option<i64>,
    pub signature_filter: Option<GtfaSignatureFilter>,
}

impl GtfaOptions {
    /// The options of a request that gives none.
    pub open spec fn unset() -> GtfaOptions {
        GtfaOptions {
            transaction_details: GtfaTransactionDetails::Signatures,
            sort_order: GtfaSortOrder::Desc,
            limit: None,
            pagination_token: None,
            commitment: None,
            min_context_slot: None,
            encoding: None,
            max_supported_transaction_version: None,
            filters: None,
        }
    }

    /// The options of a request that gives none.
    pub fn default() -> (r: GtfaOptions)
        ensures
            r == GtfaOptions::unset(),
    {
        GtfaOptions {
            transaction_details: GtfaTransactionDetails::Signatures,
            sort_order: GtfaSortOrder::Desc,
            limit: None,
            pagination_token: None,
            commitment: None,
            min_context_slot: None,
            encoding: None,
            max_supported_transaction_version: None,
            filters: None,
        }
    }

    /// The largest number of transactions that may be asked for.
    pub open spec fn max_limit(self, state: State) -> usize {
        match self.transaction_details {
            GtfaTransactionDetails::Signatures => state.gtfa_limit_signatures,
            GtfaTransactionDetails::Full => state.gtfa_limit_full,
        }
    }

    /// The number of transactions that are asked for.
    pub open spec fn asked(self, state: State) -> usize {
        match self.limit {
            Some(limit) => limit,
            None => self.max_limit(state),
        }
    }

    /// The comparison that filters the slots.
    pub open spec fn slot_filter(self) -> Option<GtfaComparison> {
        match self.filters {
            Some(filters) => filters.slot,
            None => None,
        }
    }

    /// The comparison that filters the times.
    pub open spec fn block_time_filter(self) -> Option<GtfaComparison> {
        match self.filters {
            Some(filters) => filters.block_time,
            None => None,
        }
    }

    /// What comes of reading the signatures that filter the positions.
    pub open spec fn signature_filter(self) -> Option<Result<GtfaSignatureFilter, ParseError>> {
        match self.filters {
            Some(filters) => match filters.signature {
                Some(comparison) => Some(GtfaSignatureFilter::of(comparison)),
                None => None,
            },
            None => None,
        }
    }

    /// The filter of the transactions that concern a token owner.
    pub open spec fn token_accounts(self) -> GtfaTokenAccountsFilter {
        match self.filters {
            Some(filters) => filters.token_accounts,
            None => GtfaTokenAccountsFilter::Excluded,
        }
    }

    /// The cursor from which the list goes on. An error where there is a token
    /// that cannot be read.
    pub open spec fn cursor(self) -> Result<Option<GtfaCursor>, InvalidParams> {
        match self.pagination_token {
            None => Ok(None),
            Some(token) => match GtfaCursor::of(token@) {
                Some(cursor) => Ok(Some(cursor)),
                None => Err(InvalidParams::InvalidPaginationToken),
            },
        }
    }
}

/// The slot that a bound on slots stands for: negative bounds stand for zero.
pub open spec fn bound_slot(bound: Option<i64>) -> Option<u64> {
    match bound {
        Some(bound) => Some(if bound < 0 {
            0
        } else {
            bound as u64
        }),
        None => None,
    }
}

/// The slot that a bound on slots stands for.
fn clamp_slot(bound: Option<i64>) -> (r: Option<u64>)
    ensures
        r == bound_slot(bound),
{
    match bound {
        Some(bound) => Some(if bound < 0 {
            0
        } else {
            bound as u64
        }),
        None => None,
    }
}

/// The least number that a comparison looks at, where there is one.
pub open spec fn lower_of(comparison: Option<GtfaComparison>) -> Option<i64> {
    match comparison {
        Some(comparison) => comparison.lower(),
        None => None,
    }
}

/// The greatest number that a comparison looks at, where there is one.
pub open spec fn upper_of(comparison: Option<GtfaComparison>) -> Option<i64> {
    match comparison {
        Some(comparison) => comparison.upper(),
        None => None,
    }
}

/// Why a request is refused, by the first thing that is wrong with it: the
/// address, the limit, the token, the commitment, the slot that this node has
/// to have reached, or a signature of the filter.
pub open spec fn refusal(
    state: State,
    slots: StoredSlots,
    address: Result<Pubkey, ParseError>,
    signatures: Option<Result<GtfaSignatureFilter, ParseError>>,
    options: GtfaOptions,
) -> Option<Reply> {
    let commitment = state::commitment_or_default(options.commitment);
    let limit = options.asked(state);
    let max = options.max_limit(state);
    if let Err(error) = address {
        Some(Reply::InvalidParams(InvalidParams::InvalidParam(error)))
    } else if limit == 0 || limit > max {
        Some(Reply::InvalidParams(InvalidParams::InvalidLimit { max }))
    } else if let Err(error) = options.cursor() {
        Some(Reply::InvalidParams(error))
    } else if !commitment.at_least_confirmed() {
        Some(Reply::InvalidParams(InvalidParams::CommitmentBelowConfirmed))
    } else if let Err(error) = state::context_checked(options.min_context_slot, commitment, slots) {
        Some(Reply::Custom(error))
    } else if let Some(Err(error)) = signatures {
        Some(Reply::InvalidParams(InvalidParams::InvalidParam(error)))
    } else {
        None
    }
}

/// The request that the options come to, where it is not refused.
pub open spec fn request(
    state: State,
    address: Pubkey,
    signature_filter: Option<GtfaSignatureFilter>,
    options: GtfaOptions,
) -> RpcRequestTransactionsForAddress {
    RpcRequestTransactionsForAddress {
        address,
        transaction_details: options.transaction_details,
        desc: options.sort_order == GtfaSortOrder::Desc,
        limit: options.asked(state),
        pagination_token: options.cursor()->Ok_0,
        commitment: state::commitment_or_default(options.commitment),
        encoding: match options.encoding {
            Some(encoding) => encoding,
            None => UiTransactionEncoding::Json,
        },
        max_supported_transaction_version: options.max_supported_transaction_version,
        filters: options.filters,
        token_accounts: options.token_accounts(),
        slot_filter_lower: bound_slot(lower_of(options.slot_filter())),
        slot_filter_upper: bound_slot(upper_of(options.slot_filter())),
        block_time_filter_lower: lower_of(options.block_time_filter()),
        block_time_filter_upper: upper_of(options.block_time_filter()),
        signature_filter,
    }
}

/// What comes of a request, given what came of reading its address and the
/// signatures of its filter.
pub open spec fn parsed(
    state: State,
    slots: StoredSlots,
    address: Result<Pubkey, ParseError>,
    signatures: Option<Result<GtfaSignatureFilter, ParseError>>,
    options: GtfaOptions,
) -> Result<RpcRequestTransactionsForAddress, Reply> {
    match refusal(state, slots, address, signatures, options) {
        Some(reply) => Err(reply),
        None => Ok(
            request(
                state,
                address->Ok_0,
                match signatures {
                    Some(result) => Some(result->Ok_0),
                    None => None,
                },
                options,
            ),
        ),
    }
}

impl RpcRequestTransactionsForAddress {
    /// The request that the parameters come to, given what came of reading
    /// the address and the signatures of the filter.
    pub fn parse_with(
        state: &State,
        slots: &StoredSlots,
        address: Result<Pubkey, ParseError>,
        signatures: Option<Result<GtfaSignatureFilter, ParseError>>,
        options: GtfaOptions,
    ) -> (r: Result<RpcRequestTransactionsForAddress, Reply>)
        ensures
            r == parsed(*state, *slots, address, signatures, options),
    {
        let address: Pubkey = match address {
            Ok(address) => address,
            Err(error) => {
                return Err(Reply::InvalidParams(InvalidParams::InvalidParam(error)));
            },
        };

        let default_limit: usize = match options.transaction_details {
            GtfaTransactionDetails::Signatures => state.gtfa_limit_signatures,
            GtfaTransactionDetails::Full => state.gtfa_limit_full,
        };
        let limit: usize = match options.limit {
            Some(limit) => limit,
            None => default_limit,
        };
        if limit == 0 || limit > default_limit {
            return Err(Reply::InvalidParams(InvalidParams::InvalidLimit { max: default_limit }));
        }

        let pagination_token: Option<GtfaCursor> = match &options.pagination_token {
            Some(token) => match GtfaCursor::decode(token.as_str()) {
                Ok(cursor) => Some(cursor),
                Err(error) => {
                    return Err(Reply::InvalidParams(error));
                },
            },
            None => None,
        };

        let commitment: Commitment = state::unwrap_commitment(options.commitment);
        if let Err(error) = state::check_is_at_least_confirmed(commitment) {
            return Err(Reply::InvalidParams(error));
        }
        if let Err(error) = state::min_context_check(options.min_context_slot, commitment, slots) {
            return Err(Reply::Custom(error));
        }

        let (slot_filter, block_time_filter): (
            Option<GtfaComparison>,
            Option<GtfaComparison>,
        ) = match &options.filters {
            Some(filters) => (filters.slot, filters.block_time),
            None => (None, None),
        };
        let (slot_filter_lower, slot_filter_upper): (Option<u64>, Option<u64>) = match slot_filter {
            Some(comparison) => (
                clamp_slot(comparison.lower_bound()),
                clamp_slot(comparison.upper_bound()),
            ),
            None => (None, None),
        };
        let (block_time_filter_lower, block_time_filter_upper): (
            Option<i64>,
            Option<i64>,
        ) = match block_time_filter {
            Some(comparison) => (comparison.lower_bound(), comparison.upper_bound()),
            None => (None, None),
        };
        let token_accounts: GtfaTokenAccountsFilter = match &options.filters {
            Some(filters) => filters.token_accounts,
            None => GtfaTokenAccountsFilter::Excluded,
        };

        let signature_filter: Option<GtfaSignatureFilter> = match signatures {
            Some(Ok(filter)) => Some(filter),
            Some(Err(error)) => {
                return Err(Reply::InvalidParams(InvalidParams::InvalidParam(error)));
            },
            None => None,
        };

        Ok(
            RpcRequestTransactionsForAddress {
                address,
                transaction_details: options.transaction_details,
                desc: options.sort_order == GtfaSortOrder::Desc,
                limit,
                pagination_token,
                commitment,
                encoding: match options.encoding {
                    Some(encoding) => encoding,
                    None => UiTransactionEncoding::Json,
                },
                max_supported_transaction_version: options.max_supported_transaction_version,
                filters: options.filters,
                token_accounts,
                slot_filter_lower,
                slot_filter_upper,
                block_time_filter_lower,
                block_time_filter_upper,
                signature_filter,
            },
        )
    }

    /// The request that the parameters come to.
    pub fn parse(
        state: &State,
        slots: &StoredSlots,
        address: &str,
        options: Option<GtfaOptions>,
    ) -> (r: Result<RpcRequestTransactionsForAddress, Reply>)
        ensures
            ({
                let options = match options {
                    Some(options) => options,
                    None => GtfaOptions::unset(),
                };
                r == parsed(
                    *state,
                    *slots,
                    keys::pubkey_of(address@),
                    options.signature_filter(),
                    options,
                )
            }),
    {
        let options: GtfaOptions = match options {
            Some(options) => options,
            None => GtfaOptions::default(),
        };
        let signatures: Option<Result<GtfaSignatureFilter, ParseError>> = match &options.filters {
            Some(filters) => match &filters.signature {
                Some(comparison) => Some(GtfaSignatureFilter::parse(comparison)),
                None => None,
            },
            None => None,
        };
        RpcRequestTransactionsForAddress::parse_with(
            state,
            slots,
            keys::parse_pubkey(address),
            signatures,
            options,
        )
    }

    /// Whether a request is one that parameters come to: it asks for at least
    /// one transaction.
    pub open spec fn wf(self) -> bool {
        self.limit > 0
    }
}

/// A request that is not refused asks for at least one transaction, and for
/// no more than the configured number.
pub proof fn law_limit_is_kept(
    state: State,
    slots: StoredSlots,
    address: Result<Pubkey, ParseError>,
    signatures: Option<Result<GtfaSignatureFilter, ParseError>>,
    options: GtfaOptions,
)
    ensures
        parsed(state, slots, address, signatures, options) matches Ok(request) ==> {
            &&& request.wf()
            &&& request.limit <= options.max_limit(state)
            &&& request.commitment.at_least_confirmed()
        },
{
}

} // verus!
