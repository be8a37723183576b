use alpamayo::rpc::action::{
    Action, BlockEncodingOptions, Failure, Read, ReadRequest, ReadResultBlock,
    ReadResultBlockHeight, ReadResultBlockTime, ReadResultBlocks, Reason,
    RpcRequestBlockWorkRequest, RpcRequestBlocksUntil, RpcRequestTransactionWorkRequest,
    TransactionDetails, UiTransactionEncoding, UpstreamCall, WorkRequest,
};
use alpamayo::rpc::block::{
    RpcBlocksConfigWrapper, RpcRequestBlock, RpcRequestBlockHeight, RpcRequestBlockTime,
    RpcRequestBlocks, RpcRequestBlocksWithLimit, MAX_GET_CONFIRMED_BLOCKS_RANGE,
};
use alpamayo::rpc::jsonrpc::{InvalidParams, Payload, Reply, RpcCustomError};
use alpamayo::rpc::params::{RpcBlockConfig, RpcContextConfig, RpcEncodingConfigWrapper};
use alpamayo::rpc::state::{Commitment, ConfigRpcCallJson, State, StoredSlots, Upstream};
use alpamayo::rpc::work::{on_encoded, on_submit, Encoded, SubmitOutcome, SubmitStep};

fn state(calls: Vec<ConfigRpcCallJson>) -> State {
    State {
        gsfa_limit: 1000,
        gtfa_limit_signatures: 1000,
        gtfa_limit_full: 100,
        gss_transaction_history: true,
        grpf_percentile: true,
        upstreams: vec![Upstream { calls }],
        health_check_slot_distance: 10,
    }
}

fn slots() -> StoredSlots {
    StoredSlots { first_available: 100, processed: 3000, confirmed: 2000, finalized: 1000 }
}

fn block(slot: u64, upstream_disabled: bool) -> RpcRequestBlock {
    RpcRequestBlock::parse(upstream_disabled, slot, None).unwrap()
}

fn context(commitment: Option<Commitment>, min_context_slot: Option<u64>) -> RpcContextConfig {
    RpcContextConfig { commitment, min_context_slot }
}

#[test]
fn block_parameters_have_defaults() {
    let request = block(5, false);
    assert_eq!(request.commitment, Commitment::Finalized);
    assert_eq!(request.encoding, UiTransactionEncoding::Json);
    assert_eq!(
        request.encoding_options,
        BlockEncodingOptions {
            transaction_details: TransactionDetails::Full,
            show_rewards: true,
            max_supported_transaction_version: None,
        }
    );
    let old = RpcRequestBlock::parse(
        false,
        5,
        Some(RpcEncodingConfigWrapper::Deprecated(Some(UiTransactionEncoding::Base64))),
    )
    .unwrap();
    assert_eq!(old.encoding, UiTransactionEncoding::Base64);
}

#[test]
fn block_parameters_are_taken_over() {
    let config = RpcBlockConfig {
        encoding: Some(UiTransactionEncoding::JsonParsed),
        transaction_details: Some(TransactionDetails::Omitted),
        rewards: Some(false),
        commitment: Some(Commitment::Confirmed),
        max_supported_transaction_version: Some(0),
    };
    let request =
        RpcRequestBlock::parse(true, 5, Some(RpcEncodingConfigWrapper::Current(Some(config))))
            .unwrap();
    assert!(request.upstream_disabled);
    assert_eq!(request.commitment, Commitment::Confirmed);
    assert_eq!(request.encoding, UiTransactionEncoding::JsonParsed);
    assert_eq!(request.encoding_options.transaction_details, TransactionDetails::Omitted);
    assert!(!request.encoding_options.show_rewards);
    let low = RpcBlockConfig { commitment: Some(Commitment::Processed), ..config };
    assert!(matches!(
        RpcRequestBlock::parse(true, 5, Some(RpcEncodingConfigWrapper::Current(Some(low)))),
        Err(Reply::InvalidParams(InvalidParams::CommitmentBelowConfirmed))
    ));
}

#[test]
fn blocks_are_asked_for_where_they_are() {
    let with = state(vec![ConfigRpcCallJson::GetBlock]);
    assert!(matches!(
        block(1001, false).start(&with, &slots()),
        Action::Reply(Reply::Custom(RpcCustomError::BlockNotAvailable { slot: 1001 }))
    ));
    assert!(matches!(
        block(1000, false).start(&with, &slots()),
        Action::Read(ReadRequest::Block { slot: 1000 })
    ));
    match block(100, false).start(&with, &slots()) {
        Action::Upstream { index, call: UpstreamCall::Block { slot, .. }, reason } => {
            assert_eq!((index, slot, reason), (0, 100, Reason::BelowRetention));
        }
        other => panic!("{other:?}"),
    }
    assert!(matches!(
        block(100, true).start(&with, &slots()),
        Action::Reply(Reply::Success(Payload::Null))
    ));
    assert!(matches!(
        block(100, false).start(&state(vec![]), &slots()),
        Action::Reply(Reply::Custom(RpcCustomError::LongTermStorageSlotSkipped { slot: 100 }))
    ));
}

#[test]
fn blocks_of_the_storage_are_encoded() {
    let with = state(vec![ConfigRpcCallJson::GetBlock]);
    let request = block(500, false);
    let read = |result| request.on_read(&with, &slots(), result);
    match read(Read::Value(ReadResultBlock::Block(vec![1]))) {
        Action::Encode(WorkRequest::Block(work)) => {
            assert_eq!((work.slot, work.bytes), (500, vec![1]));
        }
        other => panic!("{other:?}"),
    }
    assert!(matches!(
        read(Read::Value(ReadResultBlock::Dead)),
        Action::Reply(Reply::Custom(RpcCustomError::SlotSkipped { slot: 500 }))
    ));
    assert!(matches!(
        read(Read::Value(ReadResultBlock::NotAvailable)),
        Action::Reply(Reply::Custom(RpcCustomError::BlockNotAvailable { slot: 500 }))
    ));
    assert!(matches!(
        read(Read::Value(ReadResultBlock::Removed)),
        Action::Upstream { reason: Reason::Removed, .. }
    ));
    assert!(matches!(read(Read::Timeout), Action::Fail(Failure::Timeout)));
    let moved = StoredSlots { first_available: 500, ..slots() };
    assert!(matches!(
        request.on_read(&with, &moved, Read::Value(ReadResultBlock::Block(vec![1]))),
        Action::Upstream { reason: Reason::BelowRetention, .. }
    ));
}

#[test]
fn block_heights_are_given() {
    let request = RpcRequestBlockHeight::parse(&slots(), None).unwrap();
    assert!(matches!(
        request.start(),
        Action::Read(ReadRequest::BlockHeight { commitment: Commitment::Finalized })
    ));
    assert!(matches!(
        request.on_read(Read::Value(ReadResultBlockHeight { block_height: 9, slot: 10 })),
        Action::Reply(Reply::Success(Payload::Number(9)))
    ));
    assert!(matches!(request.on_read(Read::NotSent), Action::Fail(Failure::RequestChannelClosed)));
    assert!(matches!(
        RpcRequestBlockHeight::parse(&slots(), Some(context(None, Some(1001)))),
        Err(Reply::Custom(RpcCustomError::MinContextSlotNotReached { context_slot: 1000 }))
    ));
    assert!(RpcRequestBlockHeight::parse(
        &slots(),
        Some(context(Some(Commitment::Processed), Some(1001)))
    )
    .is_ok());
}

#[test]
fn the_range_of_blocks_is_that_of_the_interface() {
    assert_eq!(
        MAX_GET_CONFIRMED_BLOCKS_RANGE,
        solana_rpc_client_api::request::MAX_GET_CONFIRMED_BLOCKS_RANGE
    );
}

#[test]
fn ranges_end_at_the_newest_slot() {
    let parse = |start, wrapper, config| RpcRequestBlocks::parse(&slots(), false, start, wrapper, config);
    let end = |request: RpcRequestBlocks| request.until;
    let only = |slot| Some(RpcBlocksConfigWrapper::EndSlotOnly(slot));
    assert_eq!(end(parse(10, None, None).unwrap()), RpcRequestBlocksUntil::EndSlot(1000));
    assert_eq!(end(parse(10, only(Some(50)), None).unwrap()), RpcRequestBlocksUntil::EndSlot(50));
    let confirmed = context(Some(Commitment::Confirmed), None);
    assert_eq!(
        end(parse(10, only(Some(9999)), Some(confirmed)).unwrap()),
        RpcRequestBlocksUntil::EndSlot(2000)
    );
    let request =
        parse(10, Some(RpcBlocksConfigWrapper::ConfigOnly(Some(confirmed))), None).unwrap();
    assert_eq!(request.commitment, Commitment::Confirmed);
    assert_eq!(end(request), RpcRequestBlocksUntil::EndSlot(2000));
}

#[test]
fn empty_ranges_hold_no_blocks() {
    match RpcRequestBlocks::parse(&slots(), false, 1001, None, None) {
        Err(Reply::Success(Payload::Slots(slots))) => assert!(slots.is_empty()),
        other => panic!("{other:?}"),
    }
}

#[test]
fn large_ranges_are_refused() {
    let far = StoredSlots { finalized: 1_000_000, ..slots() };
    let only = |slot| Some(RpcBlocksConfigWrapper::EndSlotOnly(Some(slot)));
    assert!(RpcRequestBlocks::parse(&far, false, 10, only(500_010), None).is_ok());
    assert!(matches!(
        RpcRequestBlocks::parse(&far, false, 10, only(500_011), None),
        Err(Reply::InvalidParams(InvalidParams::SlotRangeTooLarge { max: 500_000 }))
    ));
    assert_eq!(
        RpcRequestBlocks::parse(&far, false, 10, None, None).unwrap().until,
        RpcRequestBlocksUntil::EndSlot(500_010)
    );
}

#[test]
fn lists_of_blocks_are_refused_by_their_options() {
    let parse = |config| RpcRequestBlocks::parse(&slots(), false, 10, None, Some(config));
    assert!(matches!(
        parse(context(Some(Commitment::Processed), None)),
        Err(Reply::InvalidParams(InvalidParams::CommitmentBelowConfirmed))
    ));
    assert!(matches!(
        parse(context(None, Some(1001))),
        Err(Reply::Custom(RpcCustomError::MinContextSlotNotReached { context_slot: 1000 }))
    ));
    assert!(parse(context(Some(Commitment::Confirmed), Some(9999))).is_ok());
}

#[test]
fn lists_of_blocks_come_from_where_they_are() {
    let with = state(vec![ConfigRpcCallJson::GetBlocks]);
    let request = |start, disabled| {
        RpcRequestBlocks::parse(&slots(), disabled, start, None, None).unwrap()
    };
    assert!(matches!(
        request(131, false).start(&with, &slots()),
        Action::Upstream {
            call: UpstreamCall::Blocks { start_slot: 131, .. },
            reason: Reason::BelowRetention,
            ..
        }
    ));
    assert!(matches!(request(132, false).start(&with, &slots()), Action::Read(_)));
    assert!(matches!(request(131, true).start(&with, &slots()), Action::Read(_)));
    assert!(matches!(request(131, false).start(&state(vec![]), &slots()), Action::Read(_)));
}

#[test]
fn lists_of_blocks_are_given() {
    let request = RpcRequestBlocks::parse(&slots(), false, 150, None, None).unwrap();
    match request.on_read(&slots(), Read::Value(ReadResultBlocks::Blocks(vec![151, 153]))) {
        Action::Reply(Reply::Success(Payload::Slots(blocks))) => assert_eq!(blocks, [151, 153]),
        other => panic!("{other:?}"),
    }
    assert!(matches!(
        request.on_read(&slots(), Read::Value(ReadResultBlocks::Removed)),
        Action::Reply(Reply::Custom(RpcCustomError::BlockCleanedUp {
            slot: 150,
            first_available_block: 100
        }))
    ));
    assert!(matches!(request.on_read(&slots(), Read::Timeout), Action::Fail(Failure::Timeout)));
}

#[test]
fn numbers_of_blocks_are_limited() {
    let parse = |limit, config| RpcRequestBlocksWithLimit::parse(&slots(), false, 10, limit, config);
    let request = parse(5, None).unwrap().into_blocks();
    assert_eq!(request.until, RpcRequestBlocksUntil::Limit(5));
    assert_eq!((request.start_slot, request.commitment), (10, Commitment::Finalized));
    match parse(0, None) {
        Err(Reply::Success(Payload::Slots(slots))) => assert!(slots.is_empty()),
        other => panic!("{other:?}"),
    }
    assert!(parse(500_000, None).is_ok());
    assert!(matches!(
        parse(500_001, None),
        Err(Reply::InvalidParams(InvalidParams::LimitTooLarge { max: 500_000 }))
    ));
    assert!(matches!(
        parse(5, Some(context(Some(Commitment::Processed), None))),
        Err(Reply::InvalidParams(InvalidParams::CommitmentBelowConfirmed))
    ));
    assert!(matches!(
        parse(5, Some(context(None, Some(1001)))),
        Err(Reply::Custom(RpcCustomError::MinContextSlotNotReached { .. }))
    ));
}

#[test]
fn block_times_are_given() {
    assert!(matches!(
        RpcRequestBlockTime::parse(false, 0),
        Err(Reply::Success(Payload::Timestamp(1584368940)))
    ));
    let with = state(vec![ConfigRpcCallJson::GetBlockTime]);
    let request = RpcRequestBlockTime::parse(false, 5).unwrap();
    assert!(matches!(request.start(), Action::Read(ReadRequest::BlockTime { slot: 5 })));
    let read = |result| request.on_read(&with, &slots(), Read::Value(result));
    assert!(matches!(
        read(ReadResultBlockTime::BlockTime(Some(77))),
        Action::Reply(Reply::Success(Payload::Timestamp(77)))
    ));
    assert!(matches!(
        read(ReadResultBlockTime::BlockTime(None)),
        Action::Reply(Reply::Success(Payload::Null))
    ));
    assert!(matches!(
        read(ReadResultBlockTime::Dead),
        Action::Reply(Reply::Custom(RpcCustomError::SlotSkipped { slot: 5 }))
    ));
    assert!(matches!(
        read(ReadResultBlockTime::NotAvailable),
        Action::Reply(Reply::Custom(RpcCustomError::BlockNotAvailable { slot: 5 }))
    ));
    assert!(matches!(
        read(ReadResultBlockTime::Removed),
        Action::Upstream {
            index: 0,
            call: UpstreamCall::BlockTime { slot: 5 },
            reason: Reason::Removed
        }
    ));
    assert!(matches!(
        request.on_read(&state(vec![]), &slots(), Read::Value(ReadResultBlockTime::Removed)),
        Action::Reply(Reply::Custom(RpcCustomError::BlockCleanedUp {
            slot: 5,
            first_available_block: 100
        }))
    ));
    let disabled = RpcRequestBlockTime::parse(true, 5).unwrap();
    assert!(matches!(
        disabled.on_read(&with, &slots(), Read::Value(ReadResultBlockTime::Removed)),
        Action::Reply(Reply::Custom(RpcCustomError::BlockCleanedUp { .. }))
    ));
}

#[test]
fn workers_are_waited_for() {
    assert!(matches!(on_submit(SubmitOutcome::Sent), SubmitStep::Await));
    assert!(matches!(on_submit(SubmitOutcome::Full), SubmitStep::Retry { micros: 250 }));
    assert!(matches!(
        on_submit(SubmitOutcome::Disconnected),
        SubmitStep::Fail(Failure::WorkersDisconnected)
    ));
    assert!(matches!(on_encoded(Some(1u8)), Ok(1)));
    assert!(matches!(on_encoded::<u8>(None), Err(Failure::EncodedReplyLost)));
}

#[test]
fn encoded_blocks_are_given() {
    let process = RpcRequestBlockWorkRequest::process::<u8>;
    assert!(matches!(process(Encoded::Value(1)), Ok(Ok(1))));
    assert!(matches!(process(Encoded::Malformed), Err(Failure::BlockDecode)));
    assert!(matches!(process(Encoded::MalformedBytes), Err(Failure::BlockDecodeProtobuf)));
    assert!(matches!(
        process(Encoded::UnsupportedVersion(2)),
        Ok(Err(Reply::Custom(RpcCustomError::UnsupportedTransactionVersion(2))))
    ));
    let process = RpcRequestTransactionWorkRequest::process::<u8>;
    assert!(matches!(process(Encoded::Value(1)), Ok(Ok(1))));
    assert!(matches!(process(Encoded::Malformed), Err(Failure::TransactionDecode)));
    assert!(matches!(process(Encoded::MalformedBytes), Err(Failure::TransactionDecodeProtobuf)));
}
