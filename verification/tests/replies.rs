use alpamayo::rpc::action::{received, Failure, Read, Reason};
use alpamayo::rpc::jsonrpc::{
    check_no_params, no_params_expected, respond, Id, InvalidParams, JsonText, Payload, Reply,
    RpcCustomError, RpcInflationReward, RpcPrioritizationFee, UnexpectedParams,
};
use alpamayo::rpc::keys::{ParseError, Signature};
use serde_json::Value;

fn parsed(bytes: Vec<u8>) -> Value {
    serde_json::from_slice(&bytes).unwrap()
}

fn result(payload: Payload) -> Value {
    let value = parsed(respond(&Id::Number(7), Reply::Success(payload)));
    assert_eq!(value["jsonrpc"], Value::from("2.0"));
    assert_eq!(value["id"], Value::from(7));
    assert!(value.get("error").is_none());
    value["result"].clone()
}

fn text(json: &str) -> Value {
    serde_json::from_str(json).unwrap()
}

#[test]
fn identifiers_come_back() {
    let ok = || Reply::Success(Payload::Null);
    assert_eq!(parsed(respond(&Id::Null, ok()))["id"], Value::Null);
    assert_eq!(parsed(respond(&Id::Number(3), ok()))["id"], Value::from(3));
    assert_eq!(parsed(respond(&Id::Str("x".to_string()), ok()))["id"], Value::from("x"));
}

#[test]
fn simple_results_are_written() {
    assert_eq!(result(Payload::Null), Value::Null);
    assert_eq!(result(Payload::Number(u64::MAX)), Value::from(u64::MAX));
    assert_eq!(result(Payload::Timestamp(-5)), Value::from(-5));
    assert_eq!(result(Payload::Text("ok".to_string())), Value::from("ok"));
    assert_eq!(result(Payload::Slots(vec![])), text("[]"));
    assert_eq!(result(Payload::Slots(vec![1, 5])), text("[1,5]"));
}

#[test]
fn the_bytes_of_a_result_are_exact() {
    assert_eq!(
        respond(&Id::Number(1), Reply::Success(Payload::Number(5))),
        br#"{"jsonrpc":"2.0","id":1,"result":5}"#.to_vec()
    );
}

#[test]
fn rewards_are_written() {
    let reward = RpcInflationReward {
        epoch: 2,
        effective_slot: 30,
        amount: 4,
        post_balance: 5,
        commission: Some(6),
        commission_bps: None,
    };
    assert_eq!(
        result(Payload::Rewards(vec![None, Some(reward)])),
        text(
            r#"[null,{"epoch":2,"effectiveSlot":30,"amount":4,"postBalance":5,"commission":6}]"#
        )
    );
}

#[test]
fn fees_are_written() {
    assert_eq!(
        result(Payload::Fees(vec![RpcPrioritizationFee { slot: 8, prioritization_fee: 9 }])),
        text(r#"[{"slot":8,"prioritizationFee":9}]"#)
    );
}

#[test]
fn blockhashes_are_written() {
    let value = result(Payload::Blockhash {
        slot: 10,
        blockhash: "abc".to_string(),
        last_valid_block_height: 11,
    });
    assert_eq!(value["context"]["slot"], Value::from(10));
    assert_eq!(value["value"], text(r#"{"blockhash":"abc","lastValidBlockHeight":11}"#));
    let value = result(Payload::BlockhashValid { slot: 12, is_valid: true });
    assert_eq!(value["context"]["slot"], Value::from(12));
    assert_eq!(value["value"], Value::from(true));
}

#[test]
fn versions_are_written() {
    assert_eq!(
        result(Payload::Version { solana_core: "1.2.3".to_string(), feature_set: 4 }),
        text(r#"{"solana-core":"1.2.3","feature-set":4}"#)
    );
}

#[test]
fn json_texts_stand_as_they_are() {
    let records = vec![r#"{"b":1,"a":2}"#.to_string(), "not json".to_string()];
    assert_eq!(
        respond(&Id::Number(1), Reply::Success(Payload::Signatures(records))),
        br#"{"jsonrpc":"2.0","id":1,"result":[{"b":1,"a":2},null]}"#.to_vec()
    );
    let value = result(Payload::Statuses {
        slot: 13,
        statuses: vec![None, Some(r#"{"slot":1}"#.to_string())],
    });
    assert_eq!(value["context"]["slot"], Value::from(13));
    assert_eq!(value["value"], text(r#"[null,{"slot":1}]"#));
}

#[test]
fn replies_of_other_nodes_are_handed_on() {
    assert_eq!(respond(&Id::Null, Reply::Forward(vec![1, 2, 3])), vec![1, 2, 3]);
}

#[test]
fn refused_parameters_have_a_message() {
    let cases = [
        (
            InvalidParams::CommitmentBelowConfirmed,
            "Method does not support commitment below `confirmed`",
        ),
        (InvalidParams::InvalidParam(ParseError::WrongSize), "Invalid param: WrongSize"),
        (InvalidParams::InvalidParam(ParseError::Invalid), "Invalid param: Invalid"),
        (InvalidParams::InvalidBlockhash(ParseError::WrongSize), "WrongSize"),
        (InvalidParams::InvalidBlockhash(ParseError::Invalid), "Invalid"),
        (InvalidParams::InvalidLimit { max: 1000 }, "Invalid limit; max 1000"),
        (InvalidParams::SlotRangeTooLarge { max: 500_000 }, "Slot range too large; max 500000"),
        (InvalidParams::LimitTooLarge { max: 500_000 }, "Limit too large; max 500000"),
        (InvalidParams::TooManyInputs { max: 256 }, "Too many inputs provided; max 256"),
        (InvalidParams::PercentileTooBig, "Percentile is too big; max value is 10000"),
        (InvalidParams::InvalidPaginationToken, "Invalid paginationToken"),
    ];
    for (error, message) in cases {
        assert_eq!(error.message(), message);
        let value = parsed(respond(&Id::Number(1), Reply::InvalidParams(error)));
        assert_eq!(value["error"]["code"], Value::from(-32602));
        assert_eq!(value["error"]["message"], Value::from(message));
        assert!(value["error"].get("data").is_none());
        assert!(value.get("result").is_none());
    }
}

#[test]
fn custom_errors_have_their_codes() {
    let cases = [
        (RpcCustomError::BlockCleanedUp { slot: 1, first_available_block: 2 }, -32001),
        (RpcCustomError::BlockNotAvailable { slot: 1 }, -32004),
        (RpcCustomError::NodeUnhealthy { num_slots_behind: Some(3) }, -32005),
        (RpcCustomError::SlotSkipped { slot: 1 }, -32007),
        (RpcCustomError::LongTermStorageSlotSkipped { slot: 1 }, -32009),
        (RpcCustomError::TransactionHistoryNotAvailable, -32011),
        (RpcCustomError::UnsupportedTransactionVersion(1), -32015),
        (RpcCustomError::MinContextSlotNotReached { context_slot: 9 }, -32016),
        (
            RpcCustomError::EpochRewardsPeriodActive {
                slot: 1,
                current_block_height: 2,
                rewards_complete_block_height: 3,
            },
            -32017,
        ),
    ];
    for (error, code) in cases {
        let value = parsed(respond(&Id::Number(1), Reply::Custom(error)));
        assert_eq!(value["error"]["code"], Value::from(code), "{error:?}");
    }
}

#[test]
fn custom_errors_carry_their_fields() {
    let value = parsed(respond(
        &Id::Number(1),
        Reply::Custom(RpcCustomError::EpochRewardsPeriodActive {
            slot: 1,
            current_block_height: 2,
            rewards_complete_block_height: 3,
        }),
    ));
    assert_eq!(value["error"]["data"]["currentBlockHeight"], Value::from(2));
    assert_eq!(value["error"]["data"]["rewardsCompleteBlockHeight"], Value::from(3));
    assert_eq!(value["error"]["data"]["slot"], Value::from(1));
    let value = parsed(respond(
        &Id::Number(1),
        Reply::Custom(RpcCustomError::NodeUnhealthy { num_slots_behind: Some(3) }),
    ));
    assert_eq!(value["error"]["data"]["numSlotsBehind"], Value::from(3));
    let value = parsed(respond(
        &Id::Number(1),
        Reply::Custom(RpcCustomError::BlockCleanedUp { slot: 17, first_available_block: 29 }),
    ));
    let message = value["error"]["message"].as_str().unwrap().to_string();
    assert!(message.contains("17") && message.contains("29"), "{message}");
}

#[test]
fn no_parameters_are_accepted() {
    assert!(no_params_expected(None).is_ok());
    assert!(no_params_expected(Some("null")).is_ok());
    assert!(no_params_expected(Some("[]")).is_ok());
    assert!(no_params_expected(Some(" [ ] ")).is_ok());
}

#[test]
fn unexpected_parameters_are_shown() {
    let reply = no_params_expected(Some("[ 1 ]")).unwrap_err();
    assert!(matches!(
        &reply,
        Reply::UnexpectedParams(UnexpectedParams::Present(text)) if text == "[1]"
    ));
    let value = parsed(respond(&Id::Number(1), reply));
    assert_eq!(value["error"]["code"], Value::from(-32602));
    assert_eq!(value["error"]["message"], Value::from("No parameters were expected"));
    assert_eq!(value["error"]["data"], Value::from("[1]"));
    let reply = no_params_expected(Some("{}")).unwrap_err();
    assert!(matches!(
        reply,
        Reply::UnexpectedParams(UnexpectedParams::Present(text)) if text == "{}"
    ));
}

#[test]
fn malformed_parameters_are_explained() {
    let reply = no_params_expected(Some("[1")).unwrap_err();
    let value = parsed(respond(&Id::Number(1), reply));
    assert_eq!(value["error"]["message"], Value::from("Invalid params"));
    let expected = serde_json::from_str::<Value>("[1").unwrap_err().to_string();
    assert_eq!(value["error"]["data"], Value::from(expected));
}

#[test]
fn parameters_are_judged_by_what_they_are() {
    assert!(check_no_params(JsonText::Null).is_ok());
    assert!(check_no_params(JsonText::Array(0, "[]".to_string())).is_ok());
    assert!(check_no_params(JsonText::Array(1, "[1]".to_string())).is_err());
    assert!(check_no_params(JsonText::Other("1".to_string())).is_err());
    assert!(check_no_params(JsonText::Malformed("bad".to_string())).is_err());
}

#[test]
fn failures_have_messages() {
    let cases = [
        (Failure::RequestChannelClosed, "request channel is closed"),
        (Failure::ReplyChannelClosed, "rx channel is closed"),
        (Failure::Timeout, "timeout"),
        (Failure::ReadError("disk".to_string()), "read error: disk"),
        (Failure::WorkersDisconnected, "encode workers disconnected"),
        (Failure::EncodedReplyLost, "failed to get encoded request"),
        (Failure::BlockDecode, "failed to decode block"),
        (Failure::BlockDecodeProtobuf, "failed to decode block protobuf / bincode"),
        (Failure::TransactionDecode, "failed to decode transaction"),
        (Failure::TransactionDecodeProtobuf, "failed to decode transaction protobuf / bincode"),
        (Failure::EncodePanicked("boom".to_string()), "encode task panicked: boom"),
        (Failure::UpstreamMalformed, "failed to parse json from upstream"),
        (Failure::Upstream("gone".to_string()), "gone"),
        (Failure::PubkeyMalformed("xyz".to_string()), "failed to parse xyz"),
    ];
    for (failure, message) in cases {
        assert_eq!(failure.message(), message);
    }
    let bytes = [3u8; 64];
    let shown = solana_signature::Signature::from(bytes).to_string();
    assert_eq!(
        Failure::TransactionMissing(Signature { bytes }).message(),
        format!("transaction {shown} referenced by address index but not found in storage")
    );
}

#[test]
fn reads_come_to_values_or_failures() {
    assert!(matches!(received(Read::Value(5u8)), Ok(5)));
    assert!(matches!(received::<u8>(Read::NotSent), Err(Failure::RequestChannelClosed)));
    assert!(matches!(received::<u8>(Read::Lost), Err(Failure::ReplyChannelClosed)));
    assert!(matches!(received::<u8>(Read::Timeout), Err(Failure::Timeout)));
    match received::<u8>(Read::ReadError("x".to_string())) {
        Err(Failure::ReadError(text)) => assert_eq!(text, "x"),
        other => panic!("{other:?}"),
    }
}

#[test]
fn reasons_have_labels() {
    assert_eq!(Reason::BelowRetention.label(), "below_retention");
    assert_eq!(Reason::Removed.label(), "removed");
    assert_eq!(Reason::NotFoundLocally.label(), "not_found_locally");
    assert_eq!(Reason::IncompleteResults.label(), "incomplete_results");
    assert_eq!(Reason::MissingStatus.label(), "missing_status");
    assert_eq!(Reason::Always.label(), "always");
}
