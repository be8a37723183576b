//! Laws of `getTransactionsForAddress`.

use crate::rpc::action::{
    Failure, Read, ReadRequest, ReadResultTransaction, RpcRequestTransactionWorkRequest,
    UiTransactionEncoding,
};
use crate::rpc::gtfa::filter::{
    self, GtfaComparison, GtfaCursor, GtfaFilters, GtfaSignatureFilter,
    GtfaSignaturePositionFilter, GtfaStatusFilter, GtfaTokenAccountsFilter,
};
use crate::rpc::gtfa::full::{collect_full, GtfaFullEntry, GtfaResponse};
use crate::rpc::gtfa::page::{
    self, GtfaBatch, GtfaEntry, GtfaPage, GtfaProcess, GtfaStage, GtfaStep,
};
use crate::rpc::gtfa::request::{GtfaOptions, RpcRequestTransactionsForAddress};
use crate::rpc::jsonrpc::{InvalidParams, Reply, RpcCustomError};
use crate::rpc::keys::{self, ParseError, Signature};
use crate::rpc::laws::signatures::{malformed, readable, reads_as};
use crate::rpc::laws::{behind, given, newest};
use crate::rpc::records::SignatureRecord;
use crate::rpc::state::{Commitment, State, StoredSlots};
use crate::rpc::work::Encoded;
use crate::text;
use vstd::prelude::*;

verus! {

// ------------------------------------------------------- the parameters

/// The largest number of transactions that a client may ask for.
pub open spec fn most(options: GtfaOptions, state: State) -> usize {
    if options.transaction_details is Full {
        state.gtfa_limit_full
    } else {
        state.gtfa_limit_signatures
    }
}

/// Whether the signatures that a client filters by can be read.
pub open spec fn filter_readable(options: GtfaOptions) -> bool {
    options.filters is Some && options.filters->0.signature is Some ==> {
        let texts = options.filters->0.signature->0;
        readable(texts.gte) && readable(texts.gt) && readable(texts.lte) && readable(texts.lt)
    }
}

/// What is wrong with the first signature that a client filters by and that
/// cannot be read.
pub open spec fn first_unreadable(options: GtfaOptions) -> ParseError {
    let texts = options.filters->0.signature->0;
    let text = if !readable(texts.gte) {
        texts.gte
    } else if !readable(texts.gt) {
        texts.gt
    } else if !readable(texts.lte) {
        texts.lte
    } else {
        texts.lt
    };
    keys::signature_of(text->0@)->Err_0
}

/// Whether a filter is what the signatures stand for that a client filters by.
pub open spec fn filter_reads_as(options: GtfaOptions, filter: Option<GtfaSignatureFilter>) -> bool {
    if options.filters is Some && options.filters->0.signature is Some {
        let texts = options.filters->0.signature->0;
        &&& filter is Some
        &&& reads_as(texts.gte, filter->0.gte)
        &&& reads_as(texts.gt, filter->0.gt)
        &&& reads_as(texts.lte, filter->0.lte)
        &&& reads_as(texts.lt, filter->0.lt)
    } else {
        filter is None
    }
}

/// Whether the token that a client gives can be read.
pub open spec fn token_readable(options: GtfaOptions) -> bool {
    options.pagination_token is Some ==> GtfaCursor::of(options.pagination_token->0@) is Some
}

/// What a client filters token accounts by.
pub open spec fn given_token_accounts(options: GtfaOptions) -> GtfaTokenAccountsFilter {
    if options.filters is Some {
        options.filters->0.token_accounts
    } else {
        GtfaTokenAccountsFilter::Excluded
    }
}

/// A request is accepted exactly where its address, token and signatures can
/// be read, the limit is allowed, at least confirmed transactions are asked
/// for, and this node has reached the slot that the client asks for. It then
/// keeps everything that the client gives; above all, transactions are listed
/// oldest first exactly where the client asks for that.
pub proof fn law_gtfa_request_keeps_what_is_given(
    state: State,
    slots: StoredSlots,
    address: &str,
    options: GtfaOptions,
    r: Result<RpcRequestTransactionsForAddress, Reply>,
)
    requires
        call_ensures(
            RpcRequestTransactionsForAddress::parse,
            (&state, &slots, address, Some(options)),
            r,
        ),
    ensures
        ({
            let max = most(options, state);
            let limit = given(options.limit, max);
            let commitment = given(options.commitment, Commitment::Finalized);
            let address_read = keys::pubkey_of(address@) is Ok;
            let limit_allowed = 0 < limit <= max;
            let reached = !behind(options.min_context_slot, commitment, slots);
            &&& r is Ok <==> address_read && limit_allowed && token_readable(options) && !(
            commitment is Processed) && reached && filter_readable(options)
            &&& r matches Ok(request) ==> {
                &&& keys::pubkey_of(address@)->Ok_0 == request.address
                &&& request.transaction_details == options.transaction_details
                &&& !request.desc <==> options.sort_order is Asc
                &&& request.limit == limit
                &&& options.pagination_token is None ==> request.pagination_token is None
                &&& options.pagination_token is Some ==> request.pagination_token
                    == GtfaCursor::of(options.pagination_token->0@)
                &&& request.commitment == commitment
                &&& request.encoding == given(options.encoding, UiTransactionEncoding::Json)
                &&& request.max_supported_transaction_version
                    == options.max_supported_transaction_version
                &&& request.filters == options.filters
                &&& request.token_accounts == given_token_accounts(options)
                &&& filter_reads_as(options, request.signature_filter)
            }
            &&& keys::pubkey_of(address@) matches Err(error) ==> r->Err_0 == malformed(error)
            &&& address_read && !limit_allowed ==> r->Err_0 == Reply::InvalidParams(
                InvalidParams::InvalidLimit { max },
            )
            &&& address_read && limit_allowed && !token_readable(options) ==> r->Err_0
                == Reply::InvalidParams(InvalidParams::InvalidPaginationToken)
            &&& address_read && limit_allowed && token_readable(options)
                && commitment is Processed ==> r->Err_0 == Reply::InvalidParams(
                InvalidParams::CommitmentBelowConfirmed,
            )
            &&& address_read && limit_allowed && token_readable(options) && !(
            commitment is Processed) && !reached ==> r->Err_0 == Reply::Custom(
                RpcCustomError::MinContextSlotNotReached {
                    context_slot: newest(slots, commitment),
                },
            )
            &&& address_read && limit_allowed && token_readable(options) && !(
            commitment is Processed) && reached && !filter_readable(options) ==> r->Err_0
                == malformed(first_unreadable(options))
        }),
{
}

/// A request without options means the same as one whose options say nothing.
pub proof fn law_gtfa_request_without_options(
    state: State,
    slots: StoredSlots,
    address: &str,
    options: GtfaOptions,
    bare: Result<RpcRequestTransactionsForAddress, Reply>,
    r: Result<RpcRequestTransactionsForAddress, Reply>,
)
    requires
        options.transaction_details is Signatures,
        options.sort_order is Desc,
        options.limit is None,
        options.pagination_token is None,
        options.commitment is None,
        options.min_context_slot is None,
        options.encoding is None,
        options.max_supported_transaction_version is None,
        options.filters is None,
        call_ensures(
            RpcRequestTransactionsForAddress::parse,
            (&state, &slots, address, None),
            bare,
        ),
        call_ensures(
            RpcRequestTransactionsForAddress::parse,
            (&state, &slots, address, Some(options)),
            r,
        ),
    ensures
        bare == r,
{
}

/// Whether a number meets all bounds that a client gives.
pub open spec fn meets(comparison: GtfaComparison, value: int) -> bool {
    &&& comparison.gte is Some ==> comparison.gte->0 <= value
    &&& comparison.gt is Some ==> comparison.gt->0 < value
    &&& comparison.lte is Some ==> value <= comparison.lte->0
    &&& comparison.lt is Some ==> value < comparison.lt->0
    &&& comparison.eq is Some ==> value == comparison.eq->0
}

/// Whether a slot lies between two bounds, as far as they are there.
pub open spec fn between(lower: Option<u64>, upper: Option<u64>, slot: u64) -> bool {
    &&& lower is Some ==> lower->0 <= slot
    &&& upper is Some ==> slot <= upper->0
}

/// The slots that a request looks at are those that meet the bounds that the
/// client gives on slots. Left out are slot zero, which stands for negative
/// bounds too, a slot that `eq` names and another bound excludes, and the
/// largest number where `gt` leaves nothing beyond it.
pub proof fn law_slots_are_those_asked_for(
    state: State,
    slots: StoredSlots,
    address: &str,
    options: GtfaOptions,
    request: RpcRequestTransactionsForAddress,
    slot: u64,
)
    requires
        call_ensures(
            RpcRequestTransactionsForAddress::parse,
            (&state, &slots, address, Some(options)),
            Ok(request),
        ),
        slot > 0,
        options.filters is Some && options.filters->0.slot is Some ==> {
            let comparison = options.filters->0.slot->0;
            &&& comparison.eq is Some && comparison.eq->0 == slot ==> meets(comparison, slot as int)
            &&& !(comparison.gt == Some(i64::MAX) && slot == i64::MAX)
        },
    ensures
        between(request.slot_filter_lower, request.slot_filter_upper, slot) <==> (
        options.filters is Some && options.filters->0.slot is Some ==> meets(
            options.filters->0.slot->0,
            slot as int,
        )),
{
}

/// Every time that meets the bounds that the client gives on times is looked
/// at.
pub proof fn law_times_hold_those_asked_for(
    state: State,
    slots: StoredSlots,
    address: &str,
    options: GtfaOptions,
    request: RpcRequestTransactionsForAddress,
    time: i64,
)
    requires
        call_ensures(
            RpcRequestTransactionsForAddress::parse,
            (&state, &slots, address, Some(options)),
            Ok(request),
        ),
        options.filters is Some && options.filters->0.block_time is Some ==> meets(
            options.filters->0.block_time->0,
            time as int,
        ),
    ensures
        request.block_time_filter_lower is Some ==> request.block_time_filter_lower->0 <= time,
        request.block_time_filter_upper is Some ==> time <= request.block_time_filter_upper->0,
        options.filters is None || options.filters->0.block_time is None
            ==> request.block_time_filter_lower is None && request.block_time_filter_upper is None,
{
}

/// The bounds on times are as tight as those that the client gives, as far as
/// there are numbers beyond a bound that is itself excluded.
pub proof fn law_times_are_bounded_as_given(
    state: State,
    slots: StoredSlots,
    address: &str,
    options: GtfaOptions,
    request: RpcRequestTransactionsForAddress,
    time: i64,
)
    requires
        call_ensures(
            RpcRequestTransactionsForAddress::parse,
            (&state, &slots, address, Some(options)),
            Ok(request),
        ),
        options.filters is Some,
        options.filters->0.block_time is Some,
        i64::MIN < time < i64::MAX,
        options.filters->0.block_time->0.eq is None,
        request.block_time_filter_lower is Some ==> request.block_time_filter_lower->0 <= time,
        request.block_time_filter_upper is Some ==> time <= request.block_time_filter_upper->0,
    ensures
        meets(options.filters->0.block_time->0, time as int),
{
}

/// A token is the slot and the index of a transaction, with a colon between,
/// and is read as two numbers round its first colon. Any other text is
/// refused.
pub proof fn law_token_is_slot_and_index(
    cursor: GtfaCursor,
    token: String,
    input: &str,
    r: Result<GtfaCursor, InvalidParams>,
)
    requires
        call_ensures(GtfaCursor::encode, (cursor,), token),
        call_ensures(GtfaCursor::decode, (input,), r),
    ensures
        token@ == text::decimal(cursor.slot as nat) + seq![':'] + text::decimal(
            cursor.transaction_index as nat,
        ),
        input@ == token@ ==> r == Ok::<GtfaCursor, InvalidParams>(cursor),
        r matches Err(error) ==> error is InvalidPaginationToken,
        r matches Ok(found) ==> exists|i: int|
            #[trigger] text::first_at(input@, ':', i) && text::unsigned_of(
                input@.take(i),
                u64::MAX as nat,
            ) == Some(found.slot as nat) && text::unsigned_of(
                input@.skip(i + 1),
                usize::MAX as nat,
            ) == Some(found.transaction_index as nat),
        forall|i: int| #[trigger]
            text::first_at(input@, ':', i) && text::unsigned_of(
                input@.take(i),
                u64::MAX as nat,
            ) is Some && text::unsigned_of(input@.skip(i + 1), usize::MAX as nat) is Some
                ==> r is Ok,
{
    filter::law_token_gives_back_the_cursor(cursor);
    if r is Ok {
        let i = filter::lemma_has_first_colon(input@);
        assert(text::first_at(input@, ':', i));
        filter::lemma_first_colon(input@, i);
    }
    assert forall|i: int| #[trigger]
        text::first_at(input@, ':', i) && text::unsigned_of(
            input@.take(i),
            u64::MAX as nat,
        ) is Some && text::unsigned_of(input@.skip(i + 1), usize::MAX as nat) is Some implies r
        is Ok by {
        filter::lemma_first_colon(input@, i);
    }
}

// ------------------------------------------------------- what the storage is asked for

/// Whether a slot may hold a transaction between the positions of the
/// signatures that were looked up.
pub open spec fn near_positions(process: GtfaProcess, slot: u64) -> bool {
    process.request.signature_filter is Some ==> {
        &&& process.positions.gte is Some ==> (process.positions.gte->0).0 <= slot
        &&& process.positions.gt is Some ==> (process.positions.gt->0).0 <= slot
        &&& process.positions.lte is Some ==> slot <= (process.positions.lte->0).0
        &&& process.positions.lt is Some ==> slot <= (process.positions.lt->0).0
    }
}

/// The storage is asked for the transactions of the address, with the
/// commitment and in the order that the client gives, from where the page
/// stands on. It looks at exactly the slots of the request that may hold a
/// transaction between the positions that were looked up, and for at least as
/// many transactions as the page lacks.
pub proof fn law_storage_is_asked_as_given(
    state: State,
    slots: StoredSlots,
    address: &str,
    options: GtfaOptions,
    process: GtfaProcess,
    later: State,
    read: ReadRequest,
    slot: u64,
)
    requires
        call_ensures(
            RpcRequestTransactionsForAddress::parse,
            (&state, &slots, address, Some(options)),
            Ok(process.request),
        ),
        process.wf(),
        process.stage is Scan,
        call_ensures(GtfaProcess::next, (&process, &later), GtfaStep::Read(read)),
    ensures
        ({
            let lacking = process.request.limit - process.page.entries@.len();
            &&& lacking > 0
            &&& read matches ReadRequest::TransactionsForAddress {
                commitment,
                address: asked,
                desc,
                cursor,
                slot_filter_lower,
                slot_filter_upper,
                block_time_filter_lower,
                block_time_filter_upper,
                limit,
            }
            &&& commitment == given(options.commitment, Commitment::Finalized)
            &&& keys::pubkey_of(address@)->Ok_0 == asked
            &&& !desc <==> options.sort_order is Asc
            &&& cursor == process.page.storage_cursor
            &&& block_time_filter_lower == process.request.block_time_filter_lower
            &&& block_time_filter_upper == process.request.block_time_filter_upper
            &&& between(slot_filter_lower, slot_filter_upper, slot) <==> between(
                process.request.slot_filter_lower,
                process.request.slot_filter_upper,
                slot,
            ) && near_positions(process, slot)
            &&& lacking <= limit <= 4 * lacking
            &&& options.filters is None ==> limit == lacking
            &&& options.filters is Some && limit < 4 * lacking ==> limit
                >= later.gtfa_limit_signatures
            &&& limit > lacking ==> limit <= later.gtfa_limit_signatures
        }),
{
}

/// A page begins empty, behind the transaction that the token of the client
/// names, or at the end of the order where there is no token.
pub proof fn law_page_begins_behind_the_token(
    state: State,
    slots: StoredSlots,
    address: &str,
    options: GtfaOptions,
    request: RpcRequestTransactionsForAddress,
    process: GtfaProcess,
)
    requires
        call_ensures(
            RpcRequestTransactionsForAddress::parse,
            (&state, &slots, address, Some(options)),
            Ok(request),
        ),
        call_ensures(GtfaProcess::new, (request,), process),
    ensures
        process.request == request,
        process.page.entries@.len() == 0,
        options.pagination_token is None ==> process.page.storage_cursor is None,
        options.pagination_token is Some ==> {
            let cursor = GtfaCursor::of(options.pagination_token->0@)->0;
            process.page.storage_cursor == Some((cursor.slot, cursor.transaction_index as u32))
        },
        process.positions.gte is None,
        process.positions.gt is None,
        process.positions.lte is None,
        process.positions.lt is None,
{
}

/// A page that is asked for with the token of another page goes on behind the
/// last transaction of that page.
pub proof fn law_next_page_goes_on_behind_the_last(
    first: GtfaProcess,
    token: String,
    state: State,
    slots: StoredSlots,
    address: &str,
    options: GtfaOptions,
    request: RpcRequestTransactionsForAddress,
    second: GtfaProcess,
)
    requires
        first.wf(),
        call_ensures(
            GtfaProcess::finish,
            (&first,),
            (GtfaStep::Done { pagination_token: Some(token) }),
        ),
        options.pagination_token == Some(token),
        call_ensures(
            RpcRequestTransactionsForAddress::parse,
            (&state, &slots, address, Some(options)),
            Ok(request),
        ),
        call_ensures(GtfaProcess::new, (request,), second),
    ensures
        first.page.entries@.len() > 0,
        second.page.storage_cursor matches Some(cursor) && cursor.0
            == first.page.entries@.last().record.slot && cursor.1
            == first.page.entries@.last().transaction_index,
{
    page::law_token_goes_on_behind_the_page(first.page, first.request.limit, Some(token));
}

/// A page has a token exactly where it lists something and may be followed by
/// more: it is full, or the storage has more.
pub proof fn law_token_means_more(process: GtfaProcess, token: Option<String>)
    requires
        process.wf(),
        call_ensures(GtfaProcess::finish, (&process,), (GtfaStep::Done { pagination_token: token })),
    ensures
        token is Some <==> process.page.entries@.len() > 0 && (process.page.reached_limit
            || !process.page.storage_finished),
{
}

/// A page is answered without another read exactly where it is full.
pub proof fn law_full_page_is_answered(process: GtfaProcess, state: State, step: GtfaStep)
    requires
        process.wf(),
        process.stage is Scan,
        call_ensures(GtfaProcess::next, (&process, &state), step),
    ensures
        step is Done <==> process.page.entries@.len() == process.request.limit,
{
}

// ------------------------------------------------------- signatures that are looked up

/// The signature that a client gives for a bound.
pub open spec fn given_bound(filter: Option<GtfaSignatureFilter>, stage: GtfaStage) -> Option<Signature> {
    if filter is None || stage is Scan {
        None
    } else if stage is Gte {
        filter->0.gte
    } else if stage is Gt {
        filter->0.gt
    } else if stage is Lte {
        filter->0.lte
    } else {
        filter->0.lt
    }
}

/// The position that was looked up for a bound.
pub open spec fn found_bound(positions: GtfaSignaturePositionFilter, stage: GtfaStage) -> Option<
    (u64, u32),
> {
    if stage is Gte {
        positions.gte
    } else if stage is Gt {
        positions.gt
    } else if stage is Lte {
        positions.lte
    } else if stage is Lt {
        positions.lt
    } else {
        None
    }
}

/// How many bounds are looked up before a stage.
pub open spec fn place(stage: GtfaStage) -> int {
    if stage is Gte {
        0
    } else if stage is Gt {
        1
    } else if stage is Lte {
        2
    } else if stage is Lt {
        3
    } else {
        4
    }
}

/// Whether the bounds before a stage were looked up, as far as the client
/// gives them, and no others.
pub open spec fn looked_up(process: GtfaProcess) -> bool {
    forall|stage: GtfaStage|
        place(stage) < 4 ==> (#[trigger] found_bound(process.positions, stage) is Some <==> place(
            stage,
        ) < place(process.stage) && given_bound(process.request.signature_filter, stage) is Some)
}

/// At the beginning no bound was looked up, and what comes first is the first
/// bound that the client gives.
pub proof fn law_bounds_are_looked_up_from_the_first(
    request: RpcRequestTransactionsForAddress,
    process: GtfaProcess,
)
    requires
        call_ensures(GtfaProcess::new, (request,), process),
    ensures
        looked_up(process),
        !(process.stage is Scan) ==> given_bound(request.signature_filter, process.stage) is Some,
{
    reveal_with_fuel(RpcRequestTransactionsForAddress::stage_from, 5);
}

/// Before the scan the storage is asked for the position of the signature that
/// the client gives as the bound that is next.
pub proof fn law_given_signature_is_looked_up(process: GtfaProcess, state: State, step: GtfaStep)
    requires
        process.wf(),
        !(process.stage is Scan),
        call_ensures(GtfaProcess::next, (&process, &state), step),
    ensures
        given_bound(process.request.signature_filter, process.stage) matches Some(bound) && step
            == GtfaStep::Read(
            ReadRequest::SignaturePosition { address: process.request.address, signature: bound },
        ),
{
}

/// A position that was looked up becomes the bound that it was looked up for,
/// the other bounds stay, and the next bound that the client gives comes next:
/// when the scan begins, all of them were looked up. Where the storage does
/// not know the signature nothing is listed.
#[verifier::spinoff_prover]
pub proof fn law_position_becomes_its_bound(
    process: &mut GtfaProcess,
    read: Read<Option<(u64, u32)>>,
    r: Result<bool, Failure>,
)
    requires
        old(process).wf(),
        !(old(process).stage is Scan),
        looked_up(*old(process)),
        call_ensures(GtfaProcess::on_position, (process, read), r),
    ensures
        final(process).request == old(process).request,
        final(process).page == old(process).page,
        !(read is Value) ==> r is Err && *final(process) == *old(process),
        read == Read::Value(None::<(u64, u32)>) ==> r == Ok::<bool, Failure>(false)
            && *final(process) == *old(process),
        read matches Read::Value(Some(position)) ==> {
            &&& r == Ok::<bool, Failure>(true)
            &&& found_bound(final(process).positions, old(process).stage) == Some(position)
            &&& forall|stage: GtfaStage|
                stage != old(process).stage ==> #[trigger] found_bound(
                    final(process).positions,
                    stage,
                ) == found_bound(old(process).positions, stage)
            &&& place(final(process).stage) > place(old(process).stage)
            &&& looked_up(*final(process))
            &&& !(final(process).stage is Scan) ==> given_bound(
                final(process).request.signature_filter,
                final(process).stage,
            ) is Some
        },
{
    reveal_with_fuel(RpcRequestTransactionsForAddress::stage_from, 5);
    if let Read::Value(Some(position)) = read {
        assert forall|stage: GtfaStage| place(stage) < 4 implies (#[trigger] found_bound(
            final(process).positions,
            stage,
        ) is Some <==> place(stage) < place(final(process).stage) && given_bound(
            final(process).request.signature_filter,
            stage,
        ) is Some) by {
            assert(found_bound(old(process).positions, stage) is Some <==> place(stage) < place(
                old(process).stage,
            ) && given_bound(old(process).request.signature_filter, stage) is Some);
        }
    }
}

// ------------------------------------------------------- what is listed

/// Whether a position comes before another one: in an earlier slot, or earlier
/// in the block.
pub open spec fn earlier(a: (u64, u32), b: (u64, u32)) -> bool {
    a.0 < b.0 || (a.0 == b.0 && a.1 < b.1)
}

/// Whether a client asks for a transaction: by what it has to do with tokens
/// of the address, its time, its outcome, and its position among the
/// signatures that were looked up.
pub open spec fn asked_for(
    options: GtfaOptions,
    bounds: GtfaSignaturePositionFilter,
    record: SignatureRecord,
    index: u32,
    flags: u8,
) -> bool {
    let at = (record.slot, index);
    &&& given_token_accounts(options) is Excluded ==> flags & 1 == 0
    &&& given_token_accounts(options) is BalanceChanged ==> flags & 1 == 0 || flags & 2 != 0
    &&& options.filters is Some ==> {
        let filters = options.filters->0;
        &&& filters.status is Succeeded ==> !record.failed
        &&& filters.status is Failed ==> record.failed
        &&& filters.block_time is Some ==> record.block_time is Some && meets(
            filters.block_time->0,
            record.block_time->0 as int,
        )
        &&& filters.signature is Some ==> {
            &&& bounds.gte is Some ==> bounds.gte->0 == at || earlier(bounds.gte->0, at)
            &&& bounds.gt is Some ==> earlier(bounds.gt->0, at)
            &&& bounds.lte is Some ==> bounds.lte->0 == at || earlier(at, bounds.lte->0)
            &&& bounds.lt is Some ==> earlier(at, bounds.lt->0)
        }
    }
}

/// Each filter admits what the client says, and nothing else.
pub proof fn law_filters_mean_what_they_say(
    comparison: GtfaComparison,
    value: i64,
    in_bounds: bool,
    status: GtfaStatusFilter,
    failed: bool,
    by_status: bool,
    tokens: GtfaTokenAccountsFilter,
    flags: u8,
    by_tokens: bool,
    bounds: GtfaSignaturePositionFilter,
    at: (u64, u32),
    by_position: bool,
)
    requires
        call_ensures(GtfaComparison::matches, (&comparison, value), in_bounds),
        call_ensures(GtfaStatusFilter::matches, (&status, failed), by_status),
        call_ensures(GtfaTokenAccountsFilter::matches, (&tokens, flags), by_tokens),
        call_ensures(GtfaSignaturePositionFilter::matches, (&bounds, at), by_position),
    ensures
        in_bounds <==> meets(comparison, value as int),
        by_status <==> status is Any || (status is Failed && failed) || (status is Succeeded
            && !failed),
        by_tokens <==> flags & 1 == 0 || tokens is All || (tokens is BalanceChanged && flags & 2
            != 0),
        by_position <==> {
            &&& bounds.gte is Some ==> !earlier(at, bounds.gte->0)
            &&& bounds.gt is Some ==> earlier(bounds.gt->0, at)
            &&& bounds.lte is Some ==> !earlier(bounds.lte->0, at)
            &&& bounds.lt is Some ==> earlier(at, bounds.lt->0)
        },
{
}

/// Filters by time and by outcome have to admit a transaction both, and one
/// without a time is admitted by no filter on times.
pub proof fn law_filters_hold_together(
    filters: GtfaFilters,
    block_time: Option<i64>,
    failed: bool,
    r: bool,
)
    requires
        call_ensures(GtfaFilters::matches, (&filters, block_time, failed), r),
    ensures
        r <==> {
            &&& filters.block_time is Some ==> block_time is Some && meets(
                filters.block_time->0,
                block_time->0 as int,
            )
            &&& filters.status is Succeeded ==> !failed
            &&& filters.status is Failed ==> failed
        },
{
}

/// Whether an entry lists the `j`th transaction of a batch.
pub open spec fn lists(entry: GtfaEntry, batch: GtfaBatch, j: int) -> bool {
    &&& entry.record == batch.signatures@[j]
    &&& entry.transaction_index == batch.transaction_indices@[j]
}

/// Whether the `j`th transaction of a batch is asked for.
pub open spec fn item_asked_for(
    options: GtfaOptions,
    bounds: GtfaSignaturePositionFilter,
    batch: GtfaBatch,
    j: int,
) -> bool {
    asked_for(
        options,
        bounds,
        batch.signatures@[j],
        batch.transaction_indices@[j],
        batch.token_owner_flags@[j],
    )
}

/// Whether an entry lists a transaction of a batch that is asked for.
pub open spec fn lists_one_asked_for(
    entry: GtfaEntry,
    options: GtfaOptions,
    bounds: GtfaSignaturePositionFilter,
    batch: GtfaBatch,
) -> bool {
    exists|j: int|
        0 <= j < batch.signatures@.len() && #[trigger] lists(entry, batch, j) && item_asked_for(
            options,
            bounds,
            batch,
            j,
        )
}

/// A batch, each of whose transactions comes with an index and with flags.
pub open spec fn complete(batch: GtfaBatch) -> bool {
    &&& batch.transaction_indices@.len() == batch.signatures@.len()
    &&& batch.token_owner_flags@.len() == batch.signatures@.len()
}

/// A batch adds to a page the transactions that the client asks for, and no
/// others: each one that is added is of the batch and asked for, and where
/// there is still room, each one of the batch that is asked for was added. The
/// page stays within the limit, and what it listed before stays.
#[verifier::spinoff_prover]
pub proof fn law_what_is_asked_for_is_listed(
    state: State,
    slots: StoredSlots,
    address: &str,
    options: GtfaOptions,
    process: &mut GtfaProcess,
    batch: GtfaBatch,
    r: Result<bool, Failure>,
)
    requires
        old(process).wf(),
        old(process).stage is Scan,
        old(process).page.entries@.len() < old(process).request.limit,
        call_ensures(
            RpcRequestTransactionsForAddress::parse,
            (&state, &slots, address, Some(options)),
            Ok(old(process).request),
        ),
        complete(batch),
        call_ensures(GtfaProcess::on_batch, (process, Read::Value(batch)), r),
    ensures
        ({
            let known = old(process).page.entries@;
            let entries = final(process).page.entries@;
            let limit = given(options.limit, most(options, state));
            let full = entries.len() == limit;
            &&& known.len() <= entries.len() <= limit
            &&& forall|i: int| 0 <= i < known.len() ==> #[trigger] entries[i] == known[i]
            &&& forall|i: int|
                known.len() <= i < entries.len() ==> lists_one_asked_for(
                    #[trigger] entries[i],
                    options,
                    old(process).positions,
                    batch,
                )
            &&& !full ==> forall|j: int|
                0 <= j < batch.signatures@.len() && #[trigger] item_asked_for(
                    options,
                    old(process).positions,
                    batch,
                    j,
                ) ==> exists|i: int|
                    known.len() <= i < entries.len() && #[trigger] lists(entries[i], batch, j)
            &&& final(process).page.storage_finished == batch.finished
            &&& final(process).page.reached_limit == full
            &&& r == Ok::<bool, Failure>(full || batch.finished || batch.signatures@.len() == 0)
            &&& !full && batch.signatures@.len() > 0 ==> final(process).page.storage_cursor == Some(
                (
                    batch.signatures@.last().slot,
                    batch.transaction_indices@[batch.signatures@.len() - 1],
                ),
            )
            &&& full ==> (final(process).page.storage_cursor matches Some(cursor) && cursor.0
                == entries.last().record.slot && cursor.1 == entries.last().transaction_index)
        }),
{
    let selection = old(process).selection();
    let items = batch.items();
    let known = old(process).page.entries@;
    let room = (old(process).request.limit - known.len()) as nat;
    let entries = final(process).page.entries@;
    let listed = selection.listed(items, room);
    let all = selection.admitted(items);
    selection.law_batch_lists_the_first_admitted(items, room);
    selection.lemma_scan_end(items, room, 0);
    assert forall|j: int| 0 <= j < items.len() implies (selection.admits(#[trigger] items[j])
        <==> item_asked_for(options, old(process).positions, batch, j)) by {}
    assert forall|i: int| known.len() <= i < entries.len() implies lists_one_asked_for(
        #[trigger] entries[i],
        options,
        old(process).positions,
        batch,
    ) by {
        let at = i - known.len();
        assert(entries[i] == listed[at]);
        assert(listed[at] == all[at]);
        selection.lemma_admitted_source(items, at);
        let j = choose|j: int|
            0 <= j < items.len() && selection.admits(#[trigger] items[j]) && items[j].entry()
                == all[at];
        assert(lists(entries[i], batch, j));
    }
    if entries.len() < old(process).request.limit {
        assert(listed == all);
        assert forall|j: int|
            0 <= j < batch.signatures@.len() && #[trigger] item_asked_for(
                options,
                old(process).positions,
                batch,
                j,
            ) implies exists|i: int|
            known.len() <= i < entries.len() && #[trigger] lists(entries[i], batch, j) by {
            assert(selection.admits(items[j]));
            let at = selection.lemma_admitted_contains(items, j);
            assert(entries[known.len() + at] == all[at]);
            assert(lists(entries[known.len() + at], batch, j));
        }
        selection.lemma_unfilled_scan(items, room, 0);
    } else {
        assert(all.take(all.len() as int) =~= all);
        selection.law_next_page_lists_the_rest(items, room);
    }
}

/// Where the storage fails nothing is listed, and nothing changes.
pub proof fn law_failed_read_lists_nothing(
    process: &mut GtfaProcess,
    read: Read<GtfaBatch>,
    r: Result<bool, Failure>,
)
    requires
        !(read is Value),
        call_ensures(GtfaProcess::on_batch, (process, read), r),
    ensures
        r is Err,
        *final(process) == *old(process),
{
}

/// Whether a transaction may be listed behind another one, in an order.
pub open spec fn follows(a: (int, int), b: (int, int), oldest_first: bool) -> bool {
    if oldest_first {
        a.0 < b.0 || (a.0 == b.0 && a.1 < b.1)
    } else {
        b.0 < a.0 || (b.0 == a.0 && b.1 < a.1)
    }
}

/// Where the `i`th transaction of a page stands.
pub open spec fn stands(page: GtfaPage, i: int) -> (int, int) {
    (page.entries@[i].record.slot as int, page.entries@[i].transaction_index as int)
}

/// Where the `j`th transaction of a batch stands.
pub open spec fn comes(batch: GtfaBatch, j: int) -> (int, int) {
    (batch.signatures@[j].slot as int, batch.transaction_indices@[j] as int)
}

/// Whether one of the first transactions of a batch stands at a place.
pub open spec fn among(batch: GtfaBatch, end: int, at: (int, int)) -> bool {
    exists|k: int| 0 <= k < end && #[trigger] comes(batch, k) == at
}

/// Whether a batch is what the storage was asked for: in the order that it was
/// asked for, without repetitions, and behind the cursor.
pub open spec fn honours(batch: GtfaBatch, desc: bool, cursor: Option<(u64, u32)>) -> bool {
    &&& complete(batch)
    &&& forall|i: int, j: int|
        0 <= i < j < batch.signatures@.len() ==> follows(
            #[trigger] comes(batch, i),
            #[trigger] comes(batch, j),
            !desc,
        )
    &&& cursor is Some ==> forall|j: int|
        0 <= j < batch.signatures@.len() ==> follows(
            ((cursor->0).0 as int, (cursor->0).1 as int),
            #[trigger] comes(batch, j),
            !desc,
        )
}

/// Whether a page is in order without repetitions, and the storage goes on
/// with or behind its last transaction.
pub open spec fn ordered(page: GtfaPage, oldest_first: bool) -> bool {
    &&& forall|i: int, j: int|
        0 <= i < j < page.entries@.len() ==> follows(
            #[trigger] stands(page, i),
            #[trigger] stands(page, j),
            oldest_first,
        )
    &&& page.entries@.len() > 0 ==> page.storage_cursor is Some
    &&& forall|i: int|
        0 <= i < page.entries@.len() ==> {
            let cursor = ((page.storage_cursor->0).0 as int, (page.storage_cursor->0).1 as int);
            #[trigger] stands(page, i) == cursor || follows(stands(page, i), cursor, oldest_first)
        }
}

/// A page that is filled from a storage that does as it is asked lists its
/// transactions in the order that the client asks for, oldest or newest first,
/// without repetitions: an empty page is so, and every batch that honours what
/// the storage was asked for leaves it so.
#[verifier::spinoff_prover]
pub proof fn law_page_is_in_the_order_asked_for(
    state: State,
    slots: StoredSlots,
    address: &str,
    options: GtfaOptions,
    process: &mut GtfaProcess,
    later: State,
    read: ReadRequest,
    batch: GtfaBatch,
    r: Result<bool, Failure>,
)
    requires
        call_ensures(
            RpcRequestTransactionsForAddress::parse,
            (&state, &slots, address, Some(options)),
            Ok(old(process).request),
        ),
        old(process).wf(),
        old(process).stage is Scan,
        call_ensures(GtfaProcess::next, (&*old(process), &later), GtfaStep::Read(read)),
        read is TransactionsForAddress,
        honours(
            batch,
            read->TransactionsForAddress_desc,
            read->TransactionsForAddress_cursor,
        ),
        ordered(old(process).page, options.sort_order is Asc),
        call_ensures(GtfaProcess::on_batch, (process, Read::Value(batch)), r),
    ensures
        ordered(final(process).page, options.sort_order is Asc),
{
    let oldest_first = options.sort_order is Asc;
    let desc = !oldest_first;
    assert(read->TransactionsForAddress_desc == desc);
    assert(read->TransactionsForAddress_cursor == old(process).page.storage_cursor);
    let selection = old(process).selection();
    let items = batch.items();
    let known = old(process).page.entries@;
    let room = (old(process).request.limit - known.len()) as nat;
    let end = selection.scan_end(items, room, 0) as int;
    selection.lemma_scan_end(items, room, 0);
    let scanned = items.take(end);
    let listed = selection.listed(items, room);
    let before = old(process).page;
    let after = final(process).page;
    assert forall|j: int| 0 <= j < scanned.len() implies page::positions(scanned)[j] == comes(
        batch,
        j,
    ) by {}
    assert forall|i: int, j: int| 0 <= i < j < scanned.len() implies page::in_turn(
        #[trigger] page::positions(scanned)[i],
        #[trigger] page::positions(scanned)[j],
        desc,
    ) by {
        assert(follows(comes(batch, i), comes(batch, j), oldest_first));
    }
    selection.law_order_is_kept(scanned, desc);
    assert forall|i: int| known.len() <= i < after.entries@.len() implies among(
        batch,
        end,
        #[trigger] stands(after, i),
    ) by {
        let at = i - known.len();
        selection.lemma_admitted_source(scanned, at);
        let k = choose|k: int|
            0 <= k < scanned.len() && selection.admits(#[trigger] scanned[k]) && scanned[k].entry()
                == listed[at];
        assert(comes(batch, k) == stands(after, i));
    }
    assert forall|i: int| 0 <= i < known.len() implies stands(after, i) == stands(before, i) by {}
    assert forall|i: int, j: int| 0 <= i < j < after.entries@.len() implies follows(
        #[trigger] stands(after, i),
        #[trigger] stands(after, j),
        oldest_first,
    ) by {
        if j < known.len() {
            assert(follows(stands(before, i), stands(before, j), oldest_first));
        } else if i < known.len() {
            assert(among(batch, end, stands(after, j)));
            let k = choose|k: int| 0 <= k < end && #[trigger] comes(batch, k) == stands(after, j);
            let cursor = ((before.storage_cursor->0).0 as int, (before.storage_cursor->0).1 as int);
            assert(stands(before, i) == cursor || follows(stands(before, i), cursor, oldest_first));
            assert(follows(cursor, comes(batch, k), oldest_first));
        } else {
            let a = i - known.len();
            let b = j - known.len();
            assert(page::entry_positions(listed)[a] == stands(after, i));
            assert(page::entry_positions(listed)[b] == stands(after, j));
        }
    }
    assert forall|i: int| 0 <= i < after.entries@.len() implies ({
        let cursor = ((after.storage_cursor->0).0 as int, (after.storage_cursor->0).1 as int);
        #[trigger] stands(after, i) == cursor || follows(stands(after, i), cursor, oldest_first)
    }) by {
        let cursor = ((after.storage_cursor->0).0 as int, (after.storage_cursor->0).1 as int);
        if end > 0 {
            assert(comes(batch, end - 1) == cursor);
        }
        if i < known.len() {
            let old_cursor = ((before.storage_cursor->0).0 as int, (before.storage_cursor->0).1 as int);
            assert(stands(before, i) == old_cursor || follows(
                stands(before, i),
                old_cursor,
                oldest_first,
            ));
            if end > 0 {
                assert(follows(old_cursor, comes(batch, end - 1), oldest_first));
            }
        } else {
            assert(among(batch, end, stands(after, i)));
            let k = choose|k: int| 0 <= k < end && #[trigger] comes(batch, k) == stands(after, i);
            if k < end - 1 {
                assert(follows(comes(batch, k), comes(batch, end - 1), oldest_first));
            }
        }
    }
    if listed.len() > 0 && end == 0 {
        assert(scanned.len() == 0);
    }
}

/// An empty page is in any order.
pub proof fn law_empty_page_is_in_order(
    request: RpcRequestTransactionsForAddress,
    process: GtfaProcess,
    oldest_first: bool,
)
    requires
        call_ensures(GtfaProcess::new, (request,), process),
    ensures
        ordered(process.page, oldest_first),
{
}

// ------------------------------------------------------- transactions in full

/// The storage is asked for the transaction of an entry, by its signature.
pub proof fn law_entry_is_read_by_its_signature(
    entry: GtfaEntry,
    r: Result<ReadRequest, ParseError>,
)
    requires
        call_ensures(GtfaEntry::read_transaction, (&entry,), r),
    ensures
        r is Ok <==> keys::signature_of(entry.record.signature@) is Ok,
        r matches Ok(read) ==> read matches ReadRequest::Transaction { signature } && signature
            == keys::signature_of(entry.record.signature@)->Ok_0,
        r matches Err(error) ==> error == keys::signature_of(entry.record.signature@)->Err_0,
{
}

/// A transaction of a page is encoded as the client asks for it, with the
/// bytes and the slot that the storage has, the index that the page lists, and
/// the time that the storage has, or the page where the storage has none.
pub proof fn law_full_transaction_is_encoded_as_given(
    state: State,
    slots: StoredSlots,
    address: &str,
    options: GtfaOptions,
    request: RpcRequestTransactionsForAddress,
    entry: GtfaEntry,
    signature: Signature,
    read: Read<ReadResultTransaction>,
    r: Result<RpcRequestTransactionWorkRequest, Failure>,
)
    requires
        call_ensures(
            RpcRequestTransactionsForAddress::parse,
            (&state, &slots, address, Some(options)),
            Ok(request),
        ),
        entry.transaction_index <= u32::MAX,
        call_ensures(
            RpcRequestTransactionsForAddress::fetch_transaction,
            (&request, &entry, signature, read),
            r,
        ),
    ensures
        r is Ok <==> read is Value && read->Value_0 is Transaction,
        read is Value && read->Value_0 is NotFound ==> r->Err_0 == Failure::TransactionMissing(
            signature,
        ),
        read matches Read::Value(
            ReadResultTransaction::Transaction { slot, block_time, bytes, index },
        ) ==> {
            let work = r->Ok_0;
            &&& work.encoding == given(options.encoding, UiTransactionEncoding::Json)
            &&& work.max_supported_transaction_version
                == options.max_supported_transaction_version
            &&& work.slot == slot
            &&& work.bytes == bytes
            &&& work.index == entry.transaction_index
            &&& block_time is Some ==> work.block_time == block_time
            &&& block_time is None ==> work.block_time == entry.record.block_time
        },
{
}

/// A transaction in full stands where the page lists it, with the time that it
/// was encoded with and what came of encoding it. One of a version that the
/// client does not support is answered with that version.
pub proof fn law_full_transaction_stands_where_it_is_listed<T>(
    entry: GtfaEntry,
    block_time: Option<i64>,
    encoded: Result<Encoded<T>, String>,
    r: Result<Result<GtfaFullEntry<T>, Reply>, Failure>,
)
    requires
        call_ensures(
            RpcRequestTransactionsForAddress::build_full_entry::<T>,
            (&entry, block_time, encoded),
            r,
        ),
    ensures
        encoded matches Ok(Encoded::Value(transaction)) ==> {
            &&& r matches Ok(Ok(full))
            &&& full.slot == entry.record.slot
            &&& full.transaction_index == entry.transaction_index
            &&& full.block_time == block_time
            &&& full.transaction == transaction
        },
        encoded matches Ok(Encoded::UnsupportedVersion(version)) ==> (r matches Ok(Err(reply))
            && reply == Reply::Custom(RpcCustomError::UnsupportedTransactionVersion(version))),
        encoded is Err || encoded->Ok_0 is MalformedBytes || encoded->Ok_0 is Malformed ==> r is Err,
{
}

/// Transactions in full are listed all, in their order, or answered with the
/// first reply among them.
pub proof fn law_full_transactions_are_listed_in_order<T>(
    built: Vec<Result<GtfaFullEntry<T>, Reply>>,
    r: Result<Vec<GtfaFullEntry<T>>, Reply>,
    i: int,
)
    requires
        call_ensures(collect_full::<T>, (built,), r),
        0 <= i < built@.len(),
    ensures
        r matches Ok(entries) ==> entries@.len() == built@.len() && built@[i] is Ok && entries@[i]
            == built@[i]->Ok_0,
        built@[i] is Err && (forall|j: int| 0 <= j < i ==> (#[trigger] built@[j]) is Ok) ==> (
        r matches Err(reply) && reply == built@[i]->Err_0),
{
}

/// Where a signature of the filter is not known nothing is listed, and nothing
/// follows.
pub proof fn law_empty_response_lists_nothing<T>(
    request: RpcRequestTransactionsForAddress,
    r: GtfaResponse<T>,
)
    requires
        call_ensures(RpcRequestTransactionsForAddress::empty_response::<T>, (&request,), r),
    ensures
        r.data@.len() == 0,
        r.pagination_token is None,
{
}

} // verus!
