//! The filters of a request, and the token from which a page goes on.

use crate::rpc::jsonrpc::InvalidParams;
use crate::rpc::keys::{self, ParseError, Signature};
use crate::text;
use vstd::prelude::*;

verus! {

// ------------------------------------------------------- bounds on numbers

/// Bounds on a number. Those that are there all have to hold.
#[derive(Debug, Clone, Copy, PartialEq, Eq, Structural)]
pub struct GtfaComparison {
    pub gte: Option<i64>,
    pub gt: Option<i64>,
    pub lte: Option<i64>,
    pub lt: Option<i64>,
    pub eq: Option<i64>,
}

/// The number after `n`, or the largest number where there is none.
pub open spec fn after(n: i64) -> i64 {
    if n == i64::MAX {
        n
    } else {
        (n + 1) as i64
    }
}

/// The number before `n`, or the smallest number where there is none.
pub open spec fn before(n: i64) -> i64 {
    if n == i64::MIN {
        n
    } else {
        (n - 1) as i64
    }
}

/// The larger of two bounds, as far as they are there.
pub open spec fn larger(a: Option<i64>, b: Option<i64>) -> Option<i64> {
    match (a, b) {
        (Some(a), Some(b)) => Some(if a >= b {
            a
        } else {
            b
        }),
        (Some(a), None) => Some(a),
        (None, b) => b,
    }
}

/// The smaller of two bounds, as far as they are there.
pub open spec fn smaller(a: Option<i64>, b: Option<i64>) -> Option<i64> {
    match (a, b) {
        (Some(a), Some(b)) => Some(if a <= b {
            a
        } else {
            b
        }),
        (Some(a), None) => Some(a),
        (None, b) => b,
    }
}

impl GtfaComparison {
    /// Whether a number meets all bounds.
    pub open spec fn admits(self, value: i64) -> bool {
        &&& self.gte matches Some(bound) ==> value >= bound
        &&& self.gt matches Some(bound) ==> value > bound
        &&& self.lte matches Some(bound) ==> value <= bound
        &&& self.lt matches Some(bound) ==> value < bound
        &&& self.eq matches Some(bound) ==> value == bound
    }

    /// The least number to look at.
    pub open spec fn lower(self) -> Option<i64> {
        match self.eq {
            Some(eq) => Some(eq),
            None => larger(
                self.gte,
                match self.gt {
                    Some(gt) => Some(after(gt)),
                    None => None,
                },
            ),
        }
    }

    /// The greatest number to look at.
    pub open spec fn upper(self) -> Option<i64> {
        match self.eq {
            Some(eq) => Some(eq),
            None => smaller(
                self.lte,
                match self.lt {
                    Some(lt) => Some(before(lt)),
                    None => None,
                },
            ),
        }
    }

    /// Whether a number meets all bounds.
    pub fn matches(&self, value: i64) -> (r: bool)
        ensures
            r == self.admits(value),
    {
        (match self.gte {
            Some(bound) => value >= bound,
            None => true,
        }) && (match self.gt {
            Some(bound) => value > bound,
            None => true,
        }) && (match self.lte {
            Some(bound) => value <= bound,
            None => true,
        }) && (match self.lt {
            Some(bound) => value < bound,
            None => true,
        }) && (match self.eq {
            Some(bound) => value == bound,
            None => true,
        })
    }

    /// The least number to look at.
    pub fn lower_bound(&self) -> (r: Option<i64>)
        ensures
            r == self.lower(),
    {
        if let Some(eq) = self.eq {
            return Some(eq);
        }
        let above: Option<i64> = match self.gt {
            Some(gt) => Some(if gt == i64::MAX {
                gt
            } else {
                gt + 1
            }),
            None => None,
        };
        match (self.gte, above) {
            (Some(gte), Some(gt)) => Some(if gte >= gt {
                gte
            } else {
                gt
            }),
            (Some(gte), None) => Some(gte),
            (None, bound) => bound,
        }
    }

    /// The greatest number to look at.
    pub fn upper_bound(&self) -> (r: Option<i64>)
        ensures
            r == self.upper(),
    {
        if let Some(eq) = self.eq {
            return Some(eq);
        }
        let below: Option<i64> = match self.lt {
            Some(lt) => Some(if lt == i64::MIN {
                lt
            } else {
                lt - 1
            }),
            None => None,
        };
        match (self.lte, below) {
            (Some(lte), Some(lt)) => Some(if lte <= lt {
                lte
            } else {
                lt
            }),
            (Some(lte), None) => Some(lte),
            (None, bound) => bound,
        }
    }
}

/// No number that meets the bounds of a comparison lies outside the range
/// that its least and greatest number span.
pub proof fn law_range_holds_what_is_admitted(comparison: GtfaComparison, value: i64)
    requires
        comparison.admits(value),
    ensures
        comparison.lower() matches Some(bound) ==> bound <= value,
        comparison.upper() matches Some(bound) ==> value <= bound,
{
}

/// The range holds exactly what a comparison admits. Left out are a value that
/// `eq` names and another bound excludes, and either end of the numbers where
/// `gt` or `lt` leaves nothing beyond it.
pub proof fn law_range_is_exact(comparison: GtfaComparison, value: i64)
    requires
        comparison.eq == Some(value) ==> comparison.admits(value),
        comparison.gt == Some(i64::MAX) && value == i64::MAX ==> (comparison.upper() matches Some(
            bound,
        ) && bound < value),
        comparison.lt == Some(i64::MIN) && value == i64::MIN ==> (comparison.lower() matches Some(
            bound,
        ) && value < bound),
    ensures
        comparison.admits(value) <==> {
            &&& comparison.lower() matches Some(bound) ==> bound <= value
            &&& comparison.upper() matches Some(bound) ==> value <= bound
        },
{
}

// ------------------------------------------------------- bounds on positions

/// Where a transaction stands: its slot, and its index in the block.
pub type Position = (u64, u32);

/// Whether a position comes before another one.
pub open spec fn precedes(a: Position, b: Position) -> bool {
    a.0 < b.0 || (a.0 == b.0 && a.1 < b.1)
}

/// Whether a position comes before another one.
fn is_before(a: Position, b: Position) -> (r: bool)
    ensures
        r == precedes(a, b),
{
    a.0 < b.0 || (a.0 == b.0 && a.1 < b.1)
}

/// Bounds on a position. Those that are there all have to hold.
#[derive(Debug, Clone, Copy, PartialEq, Eq)]
pub struct GtfaSignaturePositionFilter {
    pub gte: Option<(u64, u32)>,
    pub gt: Option<(u64, u32)>,
    pub lte: Option<(u64, u32)>,
    pub lt: Option<(u64, u32)>,
}

/// The larger of two slots, as far as they are there.
pub open spec fn later_slot(a: Option<u64>, b: Option<u64>) -> Option<u64> {
    match (a, b) {
        (Some(a), Some(b)) => Some(if a >= b {
            a
        } else {
            b
        }),
        (Some(a), None) => Some(a),
        (None, b) => b,
    }
}

/// The smaller of two slots, as far as they are there.
pub open spec fn earlier_slot(a: Option<u64>, b: Option<u64>) -> Option<u64> {
    match (a, b) {
        (Some(a), Some(b)) => Some(if a <= b {
            a
        } else {
            b
        }),
        (Some(a), None) => Some(a),
        (None, b) => b,
    }
}

/// The slot of a position, where there is one.
pub open spec fn slot_of(position: Option<Position>) -> Option<u64> {
    match position {
        Some(position) => Some(position.0),
        None => None,
    }
}

/// The larger of two slots, as far as they are there.
pub fn max_slot(a: Option<u64>, b: Option<u64>) -> (r: Option<u64>)
    ensures
        r == later_slot(a, b),
{
    match (a, b) {
        (Some(a), Some(b)) => Some(if a >= b {
            a
        } else {
            b
        }),
        (Some(a), None) => Some(a),
        (None, b) => b,
    }
}

/// The smaller of two slots, as far as they are there.
pub fn min_slot(a: Option<u64>, b: Option<u64>) -> (r: Option<u64>)
    ensures
        r == earlier_slot(a, b),
{
    match (a, b) {
        (Some(a), Some(b)) => Some(if a <= b {
            a
        } else {
            b
        }),
        (Some(a), None) => Some(a),
        (None, b) => b,
    }
}

/// The slot of a position, where there is one.
fn position_slot(position: Option<Position>) -> (r: Option<u64>)
    ensures
        r == slot_of(position),
{
    match position {
        Some(position) => Some(position.0),
        None => None,
    }
}

impl GtfaSignaturePositionFilter {
    /// The filter without bounds.
    pub open spec fn unbounded() -> GtfaSignaturePositionFilter {
        GtfaSignaturePositionFilter { gte: None, gt: None, lte: None, lt: None }
    }

    /// Whether a position meets all bounds.
    pub open spec fn admits(self, position: Position) -> bool {
        &&& self.gte matches Some(bound) ==> !precedes(position, bound)
        &&& self.gt matches Some(bound) ==> precedes(bound, position)
        &&& self.lte matches Some(bound) ==> !precedes(bound, position)
        &&& self.lt matches Some(bound) ==> precedes(position, bound)
    }

    /// The first slot to look at.
    pub open spec fn lower(self) -> Option<u64> {
        later_slot(slot_of(self.gte), slot_of(self.gt))
    }

    /// The last slot to look at.
    pub open spec fn upper(self) -> Option<u64> {
        earlier_slot(slot_of(self.lte), slot_of(self.lt))
    }

    /// The filter without bounds.
    pub fn default() -> (r: GtfaSignaturePositionFilter)
        ensures
            r == GtfaSignaturePositionFilter::unbounded(),
    {
        GtfaSignaturePositionFilter { gte: None, gt: None, lte: None, lt: None }
    }

    /// Whether a position meets all bounds.
    pub fn matches(&self, position: (u64, u32)) -> (r: bool)
        ensures
            r == self.admits(position),
    {
        (match self.gte {
            Some(bound) => !is_before(position, bound),
            None => true,
        }) && (match self.gt {
            Some(bound) => is_before(bound, position),
            None => true,
        }) && (match self.lte {
            Some(bound) => !is_before(bound, position),
            None => true,
        }) && (match self.lt {
            Some(bound) => is_before(position, bound),
            None => true,
        })
    }

    /// The first slot to look at.
    pub fn lower_slot(&self) -> (r: Option<u64>)
        ensures
            r == self.lower(),
    {
        max_slot(position_slot(self.gte), position_slot(self.gt))
    }

    /// The last slot to look at.
    pub fn upper_slot(&self) -> (r: Option<u64>)
        ensures
            r == self.upper(),
    {
        min_slot(position_slot(self.lte), position_slot(self.lt))
    }
}

/// No position that meets the bounds of a filter lies outside the slots that
/// the filter looks at.
pub proof fn law_slots_hold_what_is_admitted(
    filter: GtfaSignaturePositionFilter,
    position: Position,
)
    requires
        filter.admits(position),
    ensures
        filter.lower() matches Some(slot) ==> slot <= position.0,
        filter.upper() matches Some(slot) ==> position.0 <= slot,
{
}

/// Positions are in a total order.
pub proof fn law_positions_are_ordered(a: Position, b: Position, c: Position)
    ensures
        !precedes(a, a),
        precedes(a, b) || a == b || precedes(b, a),
        precedes(a, b) ==> !precedes(b, a),
        precedes(a, b) && precedes(b, c) ==> precedes(a, c),
{
}

// ------------------------------------------------------- bounds by signature

/// Bounds on the position of a transaction, by the texts of signatures.
#[derive(Debug)]
pub struct GtfaSignatureComparison {
    pub gte: Option<String>,
    pub gt: Option<String>,
    pub lte: Option<String>,
    pub lt: Option<String>,
}

/// Bounds on the position of a transaction, by signatures.
#[derive(Debug, Clone, Copy)]
pub struct GtfaSignatureFilter {
    pub gte: Option<Signature>,
    pub gt: Option<Signature>,
    pub lte: Option<Signature>,
    pub lt: Option<Signature>,
}

/// What comes of reading a signature where there is a text.
pub open spec fn optional_signature(text: Option<String>) -> Result<Option<Signature>, ParseError> {
    match text {
        None => Ok(None),
        Some(text) => match keys::signature_of(text@) {
            Ok(signature) => Ok(Some(signature)),
            Err(error) => Err(error),
        },
    }
}

/// The filter of four signatures as they were read, or the first error.
pub open spec fn combined(
    gte: Result<Option<Signature>, ParseError>,
    gt: Result<Option<Signature>, ParseError>,
    lte: Result<Option<Signature>, ParseError>,
    lt: Result<Option<Signature>, ParseError>,
) -> Result<GtfaSignatureFilter, ParseError> {
    match (gte, gt, lte, lt) {
        (Err(error), _, _, _) => Err(error),
        (_, Err(error), _, _) => Err(error),
        (_, _, Err(error), _) => Err(error),
        (_, _, _, Err(error)) => Err(error),
        (Ok(gte), Ok(gt), Ok(lte), Ok(lt)) => Ok(GtfaSignatureFilter { gte, gt, lte, lt }),
    }
}

/// Reads a signature where there is a text.
pub fn parse_optional(text: &Option<String>) -> (r: Result<Option<Signature>, ParseError>)
    ensures
        r == optional_signature(*text),
{
    match text {
        None => Ok(None),
        Some(text) => match keys::parse_signature(text.as_str()) {
            Ok(signature) => Ok(Some(signature)),
            Err(error) => Err(error),
        },
    }
}

impl GtfaSignatureFilter {
    /// What a comparison comes out as.
    pub open spec fn of(raw: GtfaSignatureComparison) -> Result<GtfaSignatureFilter, ParseError> {
        combined(
            optional_signature(raw.gte),
            optional_signature(raw.gt),
            optional_signature(raw.lte),
            optional_signature(raw.lt),
        )
    }

    /// The filter of four signatures as they were read, or the first error.
    pub fn combine(
        gte: Result<Option<Signature>, ParseError>,
        gt: Result<Option<Signature>, ParseError>,
        lte: Result<Option<Signature>, ParseError>,
        lt: Result<Option<Signature>, ParseError>,
    ) -> (r: Result<GtfaSignatureFilter, ParseError>)
        ensures
            r == combined(gte, gt, lte, lt),
    {
        match (gte, gt, lte, lt) {
            (Err(error), _, _, _) => Err(error),
            (_, Err(error), _, _) => Err(error),
            (_, _, Err(error), _) => Err(error),
            (_, _, _, Err(error)) => Err(error),
            (Ok(gte), Ok(gt), Ok(lte), Ok(lt)) => Ok(GtfaSignatureFilter { gte, gt, lte, lt }),
        }
    }

    /// Reads the signatures of a comparison. The first one that cannot be read
    /// makes the comparison fail.
    pub fn parse(raw: &GtfaSignatureComparison) -> (r: Result<GtfaSignatureFilter, ParseError>)
        ensures
            r == GtfaSignatureFilter::of(*raw),
    {
        GtfaSignatureFilter::combine(
            parse_optional(&raw.gte),
            parse_optional(&raw.gt),
            parse_optional(&raw.lte),
            parse_optional(&raw.lt),
        )
    }
}

// ------------------------------------------------------- filters

/// Which transactions are listed, by whether they succeeded.
#[derive(Debug, Clone, Copy, PartialEq, Eq, Structural)]
pub enum GtfaStatusFilter {
    Any,
    Succeeded,
    Failed,
}

impl GtfaStatusFilter {
    /// Whether a transaction is listed.
    pub open spec fn admits(self, failed: bool) -> bool {
        match self {
            GtfaStatusFilter::Any => true,
            GtfaStatusFilter::Succeeded => !failed,
            GtfaStatusFilter::Failed => failed,
        }
    }

    /// Whether a transaction is listed.
    pub fn matches(&self, failed: bool) -> (r: bool)
        ensures
            r == self.admits(failed),
    {
        match self {
            GtfaStatusFilter::Any => true,
            GtfaStatusFilter::Succeeded => !failed,
            GtfaStatusFilter::Failed => failed,
        }
    }
}

/// Which transactions are listed that concern an address only as the owner of
/// a token account.
#[derive(Debug, Clone, Copy, PartialEq, Eq, Structural)]
pub enum GtfaTokenAccountsFilter {
    Excluded,
    BalanceChanged,
    All,
}

/// Whether the flags of a record say that the address is only a token owner.
pub open spec fn is_token_owner(flags: u8) -> bool {
    flags & 0x01 != 0
}

/// Whether the flags of a record say that a token balance changed.
pub open spec fn is_balance_changed(flags: u8) -> bool {
    flags & 0x02 != 0
}

impl GtfaTokenAccountsFilter {
    /// Whether a transaction is listed.
    pub open spec fn admits(self, flags: u8) -> bool {
        match self {
            GtfaTokenAccountsFilter::Excluded => !is_token_owner(flags),
            GtfaTokenAccountsFilter::All => true,
            GtfaTokenAccountsFilter::BalanceChanged => !is_token_owner(flags)
                || is_balance_changed(flags),
        }
    }

    /// Whether a transaction is listed.
    pub fn matches(&self, flags: u8) -> (r: bool)
        ensures
            r == self.admits(flags),
    {
        let token_owner: bool = flags & 0x01 != 0;
        let balance_changed: bool = flags & 0x02 != 0;
        match self {
            GtfaTokenAccountsFilter::Excluded => !token_owner,
            GtfaTokenAccountsFilter::All => true,
            GtfaTokenAccountsFilter::BalanceChanged => !token_owner || balance_changed,
        }
    }
}

/// What is listed with all token accounts holds what is listed with those
/// whose balance changed, which holds what is listed without any.
pub proof fn law_token_filters_are_nested(flags: u8)
    ensures
        GtfaTokenAccountsFilter::Excluded.admits(flags)
            ==> GtfaTokenAccountsFilter::BalanceChanged.admits(flags),
        GtfaTokenAccountsFilter::BalanceChanged.admits(flags)
            ==> GtfaTokenAccountsFilter::All.admits(flags),
{
}

/// The filters of a request.
#[derive(Debug)]
pub struct GtfaFilters {
    pub slot: Option<GtfaComparison>,
    pub block_time: Option<GtfaComparison>,
    pub signature: Option<GtfaSignatureComparison>,
    pub status: GtfaStatusFilter,
    pub token_accounts: GtfaTokenAccountsFilter,
}

impl GtfaFilters {
    /// Whether a transaction is listed, by its time and its outcome. Where the
    /// time is filtered, one without a time is not.
    pub open spec fn admits(self, block_time: Option<i64>, failed: bool) -> bool {
        &&& self.block_time matches Some(comparison) ==> (block_time matches Some(time)
            && comparison.admits(time))
        &&& self.status.admits(failed)
    }

    /// Whether a transaction is listed, by its time and its outcome.
    pub fn matches(&self, block_time: Option<i64>, failed: bool) -> (r: bool)
        ensures
            r == self.admits(block_time, failed),
    {
        if let Some(comparison) = &self.block_time {
            match block_time {
                Some(time) => {
                    if !comparison.matches(time) {
                        return false;
                    }
                },
                None => {
                    return false;
                },
            }
        }
        self.status.matches(failed)
    }
}

// ------------------------------------------------------- pagination

/// The transaction after which a page goes on.
#[derive(Debug, Clone, Copy, PartialEq, Eq, Structural)]
pub struct GtfaCursor {
    pub slot: u64,
    pub transaction_index: usize,
}

impl GtfaCursor {
    /// The token of a cursor: the slot and the index, with a colon between.
    pub open spec fn token(self) -> Seq<char> {
        text::decimal(self.slot as nat) + seq![':'] + text::decimal(self.transaction_index as nat)
    }

    /// The cursor that a token with its first colon at `colon` stands for.
    pub open spec fn split_at(token: Seq<char>, colon: int) -> Option<GtfaCursor> {
        match (
            text::unsigned_of(token.take(colon), u64::MAX as nat),
            text::unsigned_of(token.skip(colon + 1), usize::MAX as nat),
        ) {
            (Some(slot), Some(transaction_index)) => Some(
                GtfaCursor {
                    slot: slot as u64,
                    transaction_index: transaction_index as usize,
                },
            ),
            _ => None,
        }
    }

    /// The cursor that a token stands for: two numbers, with the first colon
    /// of the token between them.
    pub open spec fn of(token: Seq<char>) -> Option<GtfaCursor> {
        if token.contains(':') {
            GtfaCursor::split_at(token, choose|i: int| text::first_at(token, ':', i))
        } else {
            None
        }
    }

    /// The token of a cursor.
    pub fn encode(self) -> (r: String)
        ensures
            r@ == self.token(),
    {
        let mut token = text::to_decimal(self.slot);
        token.append(":");
        let index = text::to_decimal(self.transaction_index as u64);
        token.append(index.as_str());
        proof {
            reveal_strlit(":");
            assert(":"@ =~= seq![':']);
        }
        token
    }

    /// The cursor that a token stands for.
    pub fn decode(input: &str) -> (r: Result<GtfaCursor, InvalidParams>)
        ensures
            r == (match GtfaCursor::of(input@) {
                Some(cursor) => Ok(cursor),
                None => Err(InvalidParams::InvalidPaginationToken),
            }),
    {
        let colon: usize = match text::find_char(input, ':') {
            Some(colon) => colon,
            None => {
                return Err(InvalidParams::InvalidPaginationToken);
            },
        };
        proof {
            lemma_first_colon(input@, colon as int);
        }
        let len: usize = input.unicode_len();
        let slot: &str = input.substring_char(0, colon);
        let index: &str = input.substring_char(colon + 1, len);
        assert(slot@ =~= input@.take(colon as int));
        assert(index@ =~= input@.skip(colon + 1));
        match (text::parse_unsigned(slot, u64::MAX), text::parse_unsigned(index, usize::MAX as u64)) {
            (Some(slot), Some(index)) => Ok(
                GtfaCursor { slot, transaction_index: index as usize },
            ),
            _ => Err(InvalidParams::InvalidPaginationToken),
        }
    }
}

/// A token with a colon has a first one.
pub(crate) proof fn lemma_has_first_colon(token: Seq<char>) -> (i: int)
    requires
        token.contains(':'),
    ensures
        text::first_at(token, ':', i),
    decreases token.len(),
{
    let j = choose|j: int| 0 <= j < token.len() && token[j] == ':';
    if exists|k: int| 0 <= k < j && token[k] == ':' {
        let init = token.take(j);
        let k = choose|k: int| 0 <= k < j && token[k] == ':';
        assert(init[k] == ':');
        let i = lemma_has_first_colon(init);
        assert(token[i] == init[i]);
        assert forall|m: int| 0 <= m < i implies token[m] != ':' by {
            assert(init[m] != ':');
        }
        i
    } else {
        j
    }
}

/// The first colon of a token is the one at which the token is split.
pub(crate) proof fn lemma_first_colon(token: Seq<char>, i: int)
    requires
        text::first_at(token, ':', i),
    ensures
        GtfaCursor::of(token) == GtfaCursor::split_at(token, i),
{
    let j = choose|j: int| text::first_at(token, ':', j);
    assert(text::first_at(token, ':', j));
    assert(i == j);
    assert(token.contains(':'));
}

/// Reading the token of a cursor gives back the cursor.
pub proof fn law_token_gives_back_the_cursor(cursor: GtfaCursor)
    ensures
        GtfaCursor::of(cursor.token()) == Some(cursor),
{
    let slot = text::decimal(cursor.slot as nat);
    let index = text::decimal(cursor.transaction_index as nat);
    let token = cursor.token();
    text::lemma_decimal_digits(cursor.slot as nat);
    text::lemma_decimal_digits(cursor.transaction_index as nat);
    text::law_decimal_is_read_back(cursor.slot as nat, u64::MAX as nat);
    text::law_decimal_is_read_back(cursor.transaction_index as nat, usize::MAX as nat);
    let colon = slot.len() as int;
    assert(token[colon] == ':');
    assert forall|j: int| 0 <= j < colon implies token[j] != ':' by {
        assert(token[j] == slot[j]);
        assert(text::is_digit(slot[j]));
    }
    lemma_first_colon(token, colon);
    assert(token.take(colon) =~= slot);
    assert(token.skip(colon + 1) =~= index);
}

} // verus!
