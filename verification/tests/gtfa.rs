use alpamayo::rpc::action::{
    Failure, Read, ReadRequest, ReadResultTransaction, UiTransactionEncoding,
};
use alpamayo::rpc::gtfa::filter::{
    GtfaComparison, GtfaCursor, GtfaFilters, GtfaSignatureComparison, GtfaSignatureFilter,
    GtfaSignaturePositionFilter, GtfaStatusFilter, GtfaTokenAccountsFilter,
};
use alpamayo::rpc::gtfa::full::{collect_full, GtfaFullEntry};
use alpamayo::rpc::gtfa::page::{GtfaBatch, GtfaProcess, GtfaStage, GtfaStep};
use alpamayo::rpc::gtfa::request::{
    GtfaOptions, GtfaSortOrder, GtfaTransactionDetails, RpcRequestTransactionsForAddress,
};
use alpamayo::rpc::jsonrpc::{InvalidParams, Reply, RpcCustomError};
use alpamayo::rpc::keys::{ParseError, Pubkey, Signature};
use alpamayo::rpc::records::SignatureRecord;
use alpamayo::rpc::state::{Commitment, State, StoredSlots};
use alpamayo::rpc::work::Encoded;

fn no_comparison() -> GtfaComparison {
    GtfaComparison { gte: None, gt: None, lte: None, lt: None, eq: None }
}

fn no_filters() -> GtfaFilters {
    GtfaFilters {
        slot: None,
        block_time: None,
        signature: None,
        status: GtfaStatusFilter::Any,
        token_accounts: GtfaTokenAccountsFilter::Excluded,
    }
}

fn state() -> State {
    State {
        gsfa_limit: 1000,
        gtfa_limit_signatures: 10,
        gtfa_limit_full: 4,
        gss_transaction_history: true,
        grpf_percentile: true,
        upstreams: vec![],
        health_check_slot_distance: 10,
    }
}

fn slots() -> StoredSlots {
    StoredSlots { first_available: 1, processed: 300, confirmed: 200, finalized: 100 }
}

fn address_text() -> String {
    solana_pubkey::Pubkey::from([7u8; 32]).to_string()
}

fn signature_text(byte: u8) -> String {
    solana_signature::Signature::from([byte; 64]).to_string()
}

fn parse(options: GtfaOptions) -> Result<RpcRequestTransactionsForAddress, Reply> {
    RpcRequestTransactionsForAddress::parse(&state(), &slots(), &address_text(), Some(options))
}

fn record(slot: u64, block_time: Option<i64>, failed: bool) -> SignatureRecord {
    SignatureRecord {
        signature: signature_text(1),
        slot,
        block_time,
        failed,
        json: "{}".to_string(),
    }
}

fn batch(slots: &[u64], finished: bool) -> Read<GtfaBatch> {
    Read::Value(GtfaBatch {
        signatures: slots.iter().map(|slot| record(*slot, Some(*slot as i64), false)).collect(),
        transaction_indices: slots.iter().map(|slot| *slot as u32 % 10).collect(),
        token_owner_flags: slots.iter().map(|_| 0).collect(),
        finished,
    })
}

fn listed(process: &GtfaProcess) -> Vec<u64> {
    process.page.entries.iter().map(|entry| entry.record.slot).collect()
}

fn token(step: GtfaStep) -> Option<String> {
    match step {
        GtfaStep::Done { pagination_token } => pagination_token,
        other => panic!("{other:?}"),
    }
}

// ------------------------------------------------------- comparisons

#[test]
fn comparisons_match_within_all_bounds() {
    let comparison =
        GtfaComparison { gte: Some(1), gt: Some(0), lte: Some(9), lt: Some(8), eq: None };
    assert!(!comparison.matches(0));
    assert!(comparison.matches(1));
    assert!(comparison.matches(7));
    assert!(!comparison.matches(8));
    assert!(no_comparison().matches(i64::MIN));
    let equal = GtfaComparison { eq: Some(5), ..no_comparison() };
    assert!(equal.matches(5));
    assert!(!equal.matches(4));
}

#[test]
fn comparisons_have_lower_bounds() {
    assert_eq!(no_comparison().lower_bound(), None);
    assert_eq!(GtfaComparison { gte: Some(3), ..no_comparison() }.lower_bound(), Some(3));
    assert_eq!(GtfaComparison { gt: Some(3), ..no_comparison() }.lower_bound(), Some(4));
    assert_eq!(
        GtfaComparison { gte: Some(3), gt: Some(3), ..no_comparison() }.lower_bound(),
        Some(4)
    );
    assert_eq!(
        GtfaComparison { gte: Some(9), gt: Some(3), ..no_comparison() }.lower_bound(),
        Some(9)
    );
    assert_eq!(
        GtfaComparison { gt: Some(i64::MAX), ..no_comparison() }.lower_bound(),
        Some(i64::MAX)
    );
    assert_eq!(
        GtfaComparison { gte: Some(9), eq: Some(1), ..no_comparison() }.lower_bound(),
        Some(1)
    );
}

#[test]
fn comparisons_have_upper_bounds() {
    assert_eq!(no_comparison().upper_bound(), None);
    assert_eq!(GtfaComparison { lte: Some(3), ..no_comparison() }.upper_bound(), Some(3));
    assert_eq!(GtfaComparison { lt: Some(3), ..no_comparison() }.upper_bound(), Some(2));
    assert_eq!(
        GtfaComparison { lte: Some(3), lt: Some(3), ..no_comparison() }.upper_bound(),
        Some(2)
    );
    assert_eq!(
        GtfaComparison { lt: Some(i64::MIN), ..no_comparison() }.upper_bound(),
        Some(i64::MIN)
    );
    assert_eq!(
        GtfaComparison { lte: Some(3), eq: Some(8), ..no_comparison() }.upper_bound(),
        Some(8)
    );
}

#[test]
fn what_matches_is_within_the_bounds() {
    let bounds = [None, Some(-1), Some(0), Some(2)];
    for gte in bounds {
        for gt in bounds {
            for lte in bounds {
                for lt in bounds {
                    let comparison = GtfaComparison { gte, gt, lte, lt, eq: None };
                    for value in -4..=4 {
                        let within = comparison.lower_bound().map_or(true, |b| b <= value)
                            && comparison.upper_bound().map_or(true, |b| value <= b);
                        assert_eq!(comparison.matches(value), within);
                    }
                }
            }
        }
    }
}

// ------------------------------------------------------- positions

#[test]
fn positions_match_by_slot_and_index() {
    let none = GtfaSignaturePositionFilter::default();
    assert!(none.matches((0, 0)));
    let filter = GtfaSignaturePositionFilter { gte: Some((5, 2)), lt: Some((7, 0)), ..none };
    assert!(!filter.matches((5, 1)));
    assert!(filter.matches((5, 2)));
    assert!(filter.matches((6, 9)));
    assert!(!filter.matches((7, 0)));
    let filter = GtfaSignaturePositionFilter { gt: Some((5, 2)), lte: Some((7, 0)), ..none };
    assert!(!filter.matches((5, 2)));
    assert!(filter.matches((5, 3)));
    assert!(filter.matches((7, 0)));
    assert!(!filter.matches((7, 1)));
}

#[test]
fn positions_bound_the_slots() {
    let none = GtfaSignaturePositionFilter::default();
    assert_eq!(none.lower_slot(), None);
    assert_eq!(none.upper_slot(), None);
    let filter = GtfaSignaturePositionFilter {
        gte: Some((5, 2)),
        gt: Some((6, 0)),
        lte: Some((9, 1)),
        lt: Some((8, 0)),
    };
    assert_eq!(filter.lower_slot(), Some(6));
    assert_eq!(filter.upper_slot(), Some(8));
    assert_eq!(GtfaSignaturePositionFilter { gt: Some((6, 0)), ..none }.lower_slot(), Some(6));
    assert_eq!(GtfaSignaturePositionFilter { lte: Some((9, 0)), ..none }.upper_slot(), Some(9));
}

// ------------------------------------------------------- tokens

#[test]
fn cursors_are_written_and_read() {
    let cursor = GtfaCursor { slot: 123, transaction_index: 45 };
    assert_eq!(cursor.encode(), "123:45");
    for (slot, transaction_index) in [(0, 0), (u64::MAX, usize::MAX), (7, 10)] {
        let cursor = GtfaCursor { slot, transaction_index };
        assert_eq!(GtfaCursor::decode(&cursor.encode()), Ok(cursor));
    }
    assert_eq!(
        GtfaCursor::decode("+1:+2"),
        Ok(GtfaCursor { slot: 1, transaction_index: 2 })
    );
}

#[test]
fn malformed_tokens_are_refused() {
    for text in ["", ":", "1", "1:", ":1", "a:1", "1:b", "1:2:3", "-1:2", "1: 2", "18446744073709551616:0"] {
        assert_eq!(
            GtfaCursor::decode(text),
            Err(InvalidParams::InvalidPaginationToken),
            "{text:?}"
        );
    }
}

// ------------------------------------------------------- parameters

#[test]
fn defaults_are_filled_in() {
    let request =
        RpcRequestTransactionsForAddress::parse(&state(), &slots(), &address_text(), None).unwrap();
    assert_eq!(request.address.bytes, [7u8; 32]);
    assert_eq!(request.transaction_details, GtfaTransactionDetails::Signatures);
    assert!(request.desc);
    assert_eq!(request.limit, 10);
    assert_eq!(request.pagination_token, None);
    assert_eq!(request.commitment, Commitment::Finalized);
    assert_eq!(request.encoding, UiTransactionEncoding::Json);
    assert!(request.filters.is_none());
    assert_eq!(request.token_accounts, GtfaTokenAccountsFilter::Excluded);
    assert_eq!(request.slot_filter_lower, None);
    assert!(request.signature_filter.is_none());
}

#[test]
fn options_are_taken_over() {
    let request = parse(GtfaOptions {
        transaction_details: GtfaTransactionDetails::Full,
        sort_order: GtfaSortOrder::Asc,
        limit: Some(3),
        pagination_token: Some("5:6".to_string()),
        commitment: Some(Commitment::Confirmed),
        min_context_slot: Some(200),
        encoding: Some(UiTransactionEncoding::Base64),
        max_supported_transaction_version: Some(0),
        filters: Some(GtfaFilters {
            slot: Some(GtfaComparison { gte: Some(-5), lt: Some(50), ..no_comparison() }),
            block_time: Some(GtfaComparison { gt: Some(-5), ..no_comparison() }),
            signature: Some(GtfaSignatureComparison {
                gte: None,
                gt: Some(signature_text(2)),
                lte: None,
                lt: None,
            }),
            status: GtfaStatusFilter::Failed,
            token_accounts: GtfaTokenAccountsFilter::All,
        }),
    })
    .unwrap();
    assert!(!request.desc);
    assert_eq!(request.limit, 3);
    assert_eq!(request.pagination_token, Some(GtfaCursor { slot: 5, transaction_index: 6 }));
    assert_eq!(request.commitment, Commitment::Confirmed);
    assert_eq!(request.encoding, UiTransactionEncoding::Base64);
    assert_eq!(request.max_supported_transaction_version, Some(0));
    assert_eq!(request.slot_filter_lower, Some(0));
    assert_eq!(request.slot_filter_upper, Some(49));
    assert_eq!(request.block_time_filter_lower, Some(-4));
    assert_eq!(request.block_time_filter_upper, None);
    assert_eq!(request.token_accounts, GtfaTokenAccountsFilter::All);
    assert_eq!(request.signature_filter.unwrap().gt.unwrap().bytes, [2u8; 64]);
}

#[test]
fn limits_are_those_of_the_details() {
    let full = |limit| GtfaOptions {
        transaction_details: GtfaTransactionDetails::Full,
        limit,
        ..GtfaOptions::default()
    };
    assert_eq!(parse(full(None)).unwrap().limit, 4);
    assert!(parse(full(Some(4))).is_ok());
    assert!(matches!(
        parse(full(Some(5))),
        Err(Reply::InvalidParams(InvalidParams::InvalidLimit { max: 4 }))
    ));
    assert!(matches!(
        parse(full(Some(0))),
        Err(Reply::InvalidParams(InvalidParams::InvalidLimit { max: 4 }))
    ));
}

#[test]
fn requests_are_refused_in_order() {
    let bad = || GtfaOptions {
        limit: Some(0),
        pagination_token: Some("x".to_string()),
        commitment: Some(Commitment::Processed),
        min_context_slot: Some(1000),
        filters: Some(GtfaFilters {
            signature: Some(GtfaSignatureComparison {
                gte: Some("x".to_string()),
                gt: None,
                lte: None,
                lt: None,
            }),
            ..no_filters()
        }),
        ..GtfaOptions::default()
    };
    let refused = RpcRequestTransactionsForAddress::parse(&state(), &slots(), "x", Some(bad()));
    assert!(matches!(
        refused,
        Err(Reply::InvalidParams(InvalidParams::InvalidParam(ParseError::WrongSize)))
    ));
    assert!(matches!(
        parse(bad()),
        Err(Reply::InvalidParams(InvalidParams::InvalidLimit { max: 10 }))
    ));
    assert!(matches!(
        parse(GtfaOptions { limit: None, ..bad() }),
        Err(Reply::InvalidParams(InvalidParams::InvalidPaginationToken))
    ));
    assert!(matches!(
        parse(GtfaOptions { limit: None, pagination_token: None, ..bad() }),
        Err(Reply::InvalidParams(InvalidParams::CommitmentBelowConfirmed))
    ));
    assert!(matches!(
        parse(GtfaOptions { limit: None, pagination_token: None, commitment: None, ..bad() }),
        Err(Reply::Custom(RpcCustomError::MinContextSlotNotReached { context_slot: 100 }))
    ));
    assert!(matches!(
        parse(GtfaOptions {
            limit: None,
            pagination_token: None,
            commitment: None,
            min_context_slot: None,
            ..bad()
        }),
        Err(Reply::InvalidParams(InvalidParams::InvalidParam(ParseError::WrongSize)))
    ));
}

#[test]
fn signature_filters_are_read_in_order() {
    let good = Some(signature_text(1));
    let invalid = Some("0".repeat(64));
    let filter = GtfaSignatureFilter::parse(&GtfaSignatureComparison {
        gte: good.clone(),
        gt: None,
        lte: Some(signature_text(2)),
        lt: None,
    })
    .unwrap();
    assert_eq!(filter.gte.unwrap().bytes, [1u8; 64]);
    assert!(filter.gt.is_none());
    assert_eq!(filter.lte.unwrap().bytes, [2u8; 64]);
    let error = GtfaSignatureFilter::parse(&GtfaSignatureComparison {
        gte: good,
        gt: invalid,
        lte: Some("x".to_string()),
        lt: None,
    })
    .unwrap_err();
    assert_eq!(error, ParseError::Invalid);
}

// ------------------------------------------------------- pages

#[test]
fn a_page_is_filled_over_batches() {
    let request = parse(GtfaOptions { limit: Some(3), ..GtfaOptions::default() }).unwrap();
    let mut process = GtfaProcess::new(request);
    match process.next(&state()) {
        GtfaStep::Read(ReadRequest::TransactionsForAddress { cursor, limit, desc, .. }) => {
            assert_eq!(cursor, None);
            assert_eq!(limit, 3);
            assert!(desc);
        }
        other => panic!("{other:?}"),
    }
    assert!(!process.on_batch(batch(&[95, 84], false)).unwrap());
    match process.next(&state()) {
        GtfaStep::Read(ReadRequest::TransactionsForAddress { cursor, limit, .. }) => {
            assert_eq!(cursor, Some((84, 4)));
            assert_eq!(limit, 1);
        }
        other => panic!("{other:?}"),
    }
    assert!(process.on_batch(batch(&[73, 62], false)).unwrap());
    assert_eq!(listed(&process), [95, 84, 73]);
    assert!(process.page.reached_limit);
    assert_eq!(process.page.storage_cursor, Some((73, 3)));
    assert_eq!(token(process.finish()), Some("73:3".to_string()));
    assert_eq!(token(process.next(&state())), Some("73:3".to_string()));
}

#[test]
fn the_next_page_goes_on_behind_the_last_one() {
    let first = parse(GtfaOptions { limit: Some(2), ..GtfaOptions::default() }).unwrap();
    let mut process = GtfaProcess::new(first);
    process.on_batch(batch(&[95, 84, 73], false)).unwrap();
    let pagination_token = token(process.finish());
    let second =
        parse(GtfaOptions { pagination_token, ..GtfaOptions::default() }).unwrap();
    let mut process = GtfaProcess::new(second);
    match process.next(&state()) {
        GtfaStep::Read(ReadRequest::TransactionsForAddress { cursor, .. }) => {
            assert_eq!(cursor, Some((84, 4)));
        }
        other => panic!("{other:?}"),
    }
    assert!(process.on_batch(batch(&[73], true)).unwrap());
    assert_eq!(listed(&process), [73]);
    assert_eq!(token(process.finish()), None);
}

#[test]
fn a_full_page_has_a_token_even_at_the_end() {
    let request = parse(GtfaOptions { limit: Some(1), ..GtfaOptions::default() }).unwrap();
    let mut process = GtfaProcess::new(request);
    assert!(process.on_batch(batch(&[95], true)).unwrap());
    assert_eq!(token(process.finish()), Some("95:5".to_string()));
}

#[test]
fn an_empty_batch_ends_a_page() {
    let request = parse(GtfaOptions::default()).unwrap();
    let mut process = GtfaProcess::new(request);
    assert!(!process.on_batch(batch(&[95], false)).unwrap());
    assert!(process.on_batch(batch(&[], false)).unwrap());
    assert_eq!(token(process.finish()), Some("95:5".to_string()));
    let mut process = GtfaProcess::new(parse(GtfaOptions::default()).unwrap());
    assert!(process.on_batch(batch(&[], true)).unwrap());
    assert_eq!(token(process.finish()), None);
}

#[test]
fn a_batch_is_cut_to_its_shortest_list() {
    let mut process = GtfaProcess::new(parse(GtfaOptions::default()).unwrap());
    let read = Read::Value(GtfaBatch {
        signatures: vec![record(9, None, false), record(8, None, false), record(7, None, false)],
        transaction_indices: vec![1, 2],
        token_owner_flags: vec![0, 0, 0],
        finished: false,
    });
    assert!(!process.on_batch(read).unwrap());
    assert_eq!(listed(&process), [9, 8]);
    assert_eq!(process.page.storage_cursor, Some((8, 2)));
}

#[test]
fn more_is_asked_for_where_some_is_filtered_out() {
    let asked = |limit: usize| {
        let request = parse(GtfaOptions {
            limit: Some(limit),
            filters: Some(no_filters()),
            ..GtfaOptions::default()
        })
        .unwrap();
        match GtfaProcess::new(request).next(&state()) {
            GtfaStep::Read(ReadRequest::TransactionsForAddress { limit, .. }) => limit,
            other => panic!("{other:?}"),
        }
    };
    assert_eq!(asked(2), 8);
    assert_eq!(asked(3), 10);
    assert_eq!(asked(10), 10);
}

fn filtered(filters: GtfaFilters, read: Read<GtfaBatch>) -> Vec<u64> {
    let request =
        parse(GtfaOptions { filters: Some(filters), ..GtfaOptions::default() }).unwrap();
    let mut process = GtfaProcess::new(request);
    process.on_batch(read).unwrap();
    assert_eq!(process.page.storage_cursor, Some((1, 1)));
    listed(&process)
}

fn mixed() -> Read<GtfaBatch> {
    Read::Value(GtfaBatch {
        signatures: vec![
            record(4, Some(40), false),
            record(3, Some(30), true),
            record(2, None, false),
            record(1, Some(10), false),
        ],
        transaction_indices: vec![4, 3, 2, 1],
        token_owner_flags: vec![0, 1, 3, 2],
        finished: true,
    })
}

#[test]
fn tokens_are_filtered() {
    assert_eq!(filtered(no_filters(), mixed()), [4, 1]);
    let with = |token_accounts| GtfaFilters { token_accounts, ..no_filters() };
    assert_eq!(filtered(with(GtfaTokenAccountsFilter::BalanceChanged), mixed()), [4, 2, 1]);
    assert_eq!(filtered(with(GtfaTokenAccountsFilter::All), mixed()), [4, 3, 2, 1]);
}

#[test]
fn outcomes_are_filtered() {
    let with = |status| GtfaFilters {
        status,
        token_accounts: GtfaTokenAccountsFilter::All,
        ..no_filters()
    };
    assert_eq!(filtered(with(GtfaStatusFilter::Failed), mixed()), [3]);
    assert_eq!(filtered(with(GtfaStatusFilter::Succeeded), mixed()), [4, 2, 1]);
}

#[test]
fn times_are_filtered() {
    let filters = GtfaFilters {
        block_time: Some(GtfaComparison { lt: Some(40), ..no_comparison() }),
        token_accounts: GtfaTokenAccountsFilter::All,
        ..no_filters()
    };
    assert_eq!(filtered(filters, mixed()), [3, 1]);
}

#[test]
fn signatures_are_looked_up_and_filtered_by() {
    let request = parse(GtfaOptions {
        filters: Some(GtfaFilters {
            slot: Some(GtfaComparison { gte: Some(1), lte: Some(60), ..no_comparison() }),
            signature: Some(GtfaSignatureComparison {
                gte: None,
                gt: Some(signature_text(2)),
                lte: Some(signature_text(3)),
                lt: None,
            }),
            ..no_filters()
        }),
        ..GtfaOptions::default()
    })
    .unwrap();
    let mut process = GtfaProcess::new(request);
    assert_eq!(process.stage, GtfaStage::Gt);
    match process.next(&state()) {
        GtfaStep::Read(ReadRequest::SignaturePosition { address, signature }) => {
            assert_eq!(address.bytes, [7u8; 32]);
            assert_eq!(signature.bytes, [2u8; 64]);
        }
        other => panic!("{other:?}"),
    }
    assert!(process.on_position(Read::Value(Some((20, 5)))).unwrap());
    match process.next(&state()) {
        GtfaStep::Read(ReadRequest::SignaturePosition { signature, .. }) => {
            assert_eq!(signature.bytes, [3u8; 64]);
        }
        other => panic!("{other:?}"),
    }
    assert!(process.on_position(Read::Value(Some((40, 5)))).unwrap());
    match process.next(&state()) {
        GtfaStep::Read(ReadRequest::TransactionsForAddress {
            slot_filter_lower,
            slot_filter_upper,
            ..
        }) => {
            assert_eq!(slot_filter_lower, Some(20));
            assert_eq!(slot_filter_upper, Some(40));
        }
        other => panic!("{other:?}"),
    }
    let read = Read::Value(GtfaBatch {
        signatures: vec![
            record(40, None, false),
            record(40, None, false),
            record(20, None, false),
            record(20, None, false),
        ],
        transaction_indices: vec![6, 5, 6, 5],
        token_owner_flags: vec![0, 0, 0, 0],
        finished: true,
    });
    process.on_batch(read).unwrap();
    let positions: Vec<(u64, usize)> = process
        .page
        .entries
        .iter()
        .map(|entry| (entry.record.slot, entry.transaction_index))
        .collect();
    assert_eq!(positions, [(40, 5), (20, 6)]);
}

#[test]
fn an_unknown_signature_gives_an_empty_page() {
    let request = parse(GtfaOptions {
        filters: Some(GtfaFilters {
            signature: Some(GtfaSignatureComparison {
                gte: Some(signature_text(2)),
                gt: None,
                lte: None,
                lt: Some(signature_text(3)),
            }),
            ..no_filters()
        }),
        ..GtfaOptions::default()
    })
    .unwrap();
    let mut process = GtfaProcess::new(request);
    assert!(!process.on_position(Read::Value(None)).unwrap());
    assert!(matches!(process.on_position(Read::Timeout), Err(Failure::Timeout)));
}

#[test]
fn failed_reads_fail_the_page() {
    let mut process = GtfaProcess::new(parse(GtfaOptions::default()).unwrap());
    assert!(matches!(process.on_batch(Read::Lost), Err(Failure::ReplyChannelClosed)));
    assert!(process.page.entries.is_empty());
}

// ------------------------------------------------------- transactions in full

#[test]
fn full_transactions_are_fetched() {
    let request = parse(GtfaOptions {
        transaction_details: GtfaTransactionDetails::Full,
        max_supported_transaction_version: Some(0),
        ..GtfaOptions::default()
    })
    .unwrap();
    let mut process = GtfaProcess::new(parse(GtfaOptions::default()).unwrap());
    process.on_batch(batch(&[95], true)).unwrap();
    let entry = &process.page.entries[0];
    let signature = entry.signature().unwrap();
    assert_eq!(signature.bytes, [1u8; 64]);
    match entry.read_transaction() {
        Ok(ReadRequest::Transaction { signature }) => assert_eq!(signature.bytes, [1u8; 64]),
        other => panic!("{other:?}"),
    }
    let found = |block_time| {
        Read::Value(ReadResultTransaction::Transaction {
            slot: 96,
            block_time,
            bytes: vec![1, 2],
            index: 77,
        })
    };
    let work = request.fetch_transaction(entry, signature, found(None)).unwrap();
    assert_eq!((work.slot, work.block_time, work.index), (96, Some(95), 5));
    assert_eq!(work.bytes, [1, 2]);
    assert_eq!(work.max_supported_transaction_version, Some(0));
    let work = request.fetch_transaction(entry, signature, found(Some(9))).unwrap();
    assert_eq!(work.block_time, Some(9));
    assert!(matches!(
        request.fetch_transaction(entry, signature, Read::Value(ReadResultTransaction::NotFound)),
        Err(Failure::TransactionMissing(Signature { .. }))
    ));
    assert!(matches!(
        request.fetch_transaction(entry, signature, Read::Timeout),
        Err(Failure::Timeout)
    ));
}

#[test]
fn full_transactions_are_encoded() {
    let mut process = GtfaProcess::new(parse(GtfaOptions::default()).unwrap());
    process.on_batch(batch(&[95], true)).unwrap();
    let entry = &process.page.entries[0];
    let build = |encoded| {
        RpcRequestTransactionsForAddress::build_full_entry::<u8>(entry, Some(3), encoded)
    };
    let full = build(Ok(Encoded::Value(8))).unwrap().unwrap();
    assert_eq!(
        (full.slot, full.transaction_index, full.block_time, full.transaction),
        (95, 5, Some(3), 8)
    );
    assert!(matches!(
        build(Ok(Encoded::UnsupportedVersion(1))),
        Ok(Err(Reply::Custom(RpcCustomError::UnsupportedTransactionVersion(1))))
    ));
    assert!(matches!(build(Ok(Encoded::Malformed)), Err(Failure::TransactionDecode)));
    assert!(matches!(
        build(Ok(Encoded::MalformedBytes)),
        Err(Failure::TransactionDecodeProtobuf)
    ));
    assert!(matches!(build(Err("x".to_string())), Err(Failure::EncodePanicked(_))));
}

#[test]
fn parsing_goes_by_what_was_read() {
    let parsed = RpcRequestTransactionsForAddress::parse_with(
        &state(),
        &slots(),
        Ok(Pubkey { bytes: [1u8; 32] }),
        None,
        GtfaOptions::default(),
    )
    .unwrap();
    assert_eq!(parsed.address.bytes, [1u8; 32]);
    let refused = RpcRequestTransactionsForAddress::parse_with(
        &state(),
        &slots(),
        Ok(Pubkey { bytes: [1u8; 32] }),
        Some(Err(ParseError::Invalid)),
        GtfaOptions::default(),
    );
    assert!(matches!(
        refused,
        Err(Reply::InvalidParams(InvalidParams::InvalidParam(ParseError::Invalid)))
    ));
}

#[test]
fn the_first_reply_answers_for_a_full_page() {
    let entry = |slot| GtfaFullEntry {
        slot,
        transaction_index: 1,
        block_time: None,
        transaction: slot,
    };
    let refused = |version| {
        Err(Reply::Custom(RpcCustomError::UnsupportedTransactionVersion(version)))
    };
    let entries = collect_full(vec![Ok(entry(3)), Ok(entry(2))]).unwrap();
    let slots: Vec<u64> = entries.iter().map(|entry| entry.slot).collect();
    assert_eq!(slots, [3, 2]);
    assert!(matches!(
        collect_full(vec![Ok(entry(3)), refused(1), Ok(entry(2)), refused(5)]),
        Err(Reply::Custom(RpcCustomError::UnsupportedTransactionVersion(1)))
    ));
    assert!(collect_full::<u8>(vec![]).unwrap().is_empty());
}

#[test]
fn an_unknown_signature_is_answered_an_empty_page() {
    let request = parse(GtfaOptions::default()).unwrap();
    let response = request.empty_response::<u8>();
    assert!(response.data.is_empty());
    assert_eq!(response.pagination_token, None);
}

#[test]
fn a_malformed_entry_is_not_read() {
    let mut process = GtfaProcess::new(parse(GtfaOptions::default()).unwrap());
    process.on_batch(batch(&[95], true)).unwrap();
    let mut entry = process.page.entries.pop().unwrap();
    entry.record.signature = "bad".to_string();
    assert!(matches!(entry.read_transaction(), Err(ParseError::WrongSize)));
}
