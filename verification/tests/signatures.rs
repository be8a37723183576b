use alpamayo::rpc::action::{
    Action, Failure, Read, ReadRequest, ReadResultTransaction, Reason, UiTransactionEncoding,
    UpstreamCall, WorkRequest,
};
use alpamayo::rpc::jsonrpc::{
    respond, Id, InvalidParams, Payload, Reply, RpcCustomError,
};
use alpamayo::rpc::keys::{ParseError, Signature};
use alpamayo::rpc::params::{RpcEncodingConfigWrapper, RpcTransactionConfig};
use alpamayo::rpc::records::SignatureRecord;
use alpamayo::rpc::signatures::{
    ReadResultSignaturesForAddress, RpcRequestSignatureStatuses, RpcRequestSignaturesForAddress,
    RpcSignaturesForAddressConfig, MAX_GET_SIGNATURE_STATUSES_QUERY_ITEMS,
};
use alpamayo::rpc::state::{Commitment, ConfigRpcCallJson, State, StoredSlots, Upstream};
use alpamayo::rpc::transaction::RpcRequestTransaction;

fn shown(byte: u8) -> String {
    solana_signature::Signature::from([byte; 64]).to_string()
}

fn address() -> String {
    solana_pubkey::Pubkey::from([7u8; 32]).to_string()
}

fn state(calls: Vec<ConfigRpcCallJson>) -> State {
    State {
        gsfa_limit: 10,
        gtfa_limit_signatures: 1000,
        gtfa_limit_full: 100,
        gss_transaction_history: true,
        grpf_percentile: true,
        upstreams: vec![Upstream { calls }],
        health_check_slot_distance: 10,
    }
}

fn slots() -> StoredSlots {
    StoredSlots { first_available: 100, processed: 3000, confirmed: 2000, finalized: 1000 }
}

fn config(limit: Option<usize>) -> RpcSignaturesForAddressConfig {
    RpcSignaturesForAddressConfig {
        before: None,
        until: None,
        limit,
        commitment: None,
        min_context_slot: None,
    }
}

fn with_upstream() -> State {
    state(vec![ConfigRpcCallJson::GetSignaturesForAddress, ConfigRpcCallJson::GetSignatureStatuses])
}

fn record(byte: u8, json: &str) -> SignatureRecord {
    SignatureRecord {
        signature: shown(byte),
        slot: 5,
        block_time: None,
        failed: false,
        json: json.to_string(),
    }
}

fn request(limit: usize) -> RpcRequestSignaturesForAddress {
    RpcRequestSignaturesForAddress::parse(
        &with_upstream(),
        &slots(),
        false,
        &address(),
        &config(Some(limit)),
    )
    .unwrap()
}

fn payload(action: Action) -> Payload {
    match action {
        Action::Reply(Reply::Success(payload)) => payload,
        other => panic!("{other:?}"),
    }
}

// ------------------------------------------------------- signatures of an address

#[test]
fn signature_requests_have_defaults() {
    let request = RpcRequestSignaturesForAddress::parse(
        &with_upstream(),
        &slots(),
        true,
        &address(),
        &config(None),
    )
    .unwrap();
    assert_eq!(request.limit, 10);
    assert_eq!(request.address.bytes, [7u8; 32]);
    assert_eq!(request.commitment, Commitment::Finalized);
    assert!(request.upstream_disabled);
    assert!(request.before.is_none() && request.until.is_none());
    assert!(matches!(
        request.start(),
        Action::Read(ReadRequest::SignaturesForAddress { limit: 10, .. })
    ));
}

#[test]
fn signature_requests_are_refused_in_order() {
    let parse = |address: &str, config: RpcSignaturesForAddressConfig| {
        RpcRequestSignaturesForAddress::parse(&with_upstream(), &slots(), false, address, &config)
    };
    let bad = || RpcSignaturesForAddressConfig {
        before: Some("0".repeat(64)),
        until: Some("x".to_string()),
        limit: Some(11),
        commitment: Some(Commitment::Processed),
        min_context_slot: Some(1001),
    };
    assert!(matches!(
        parse("x", bad()),
        Err(Reply::InvalidParams(InvalidParams::InvalidParam(ParseError::WrongSize)))
    ));
    assert!(matches!(
        parse(&address(), bad()),
        Err(Reply::InvalidParams(InvalidParams::InvalidParam(ParseError::Invalid)))
    ));
    let bad = || RpcSignaturesForAddressConfig { before: Some(shown(1)), ..bad() };
    assert!(matches!(
        parse(&address(), bad()),
        Err(Reply::InvalidParams(InvalidParams::InvalidParam(ParseError::WrongSize)))
    ));
    let bad = || RpcSignaturesForAddressConfig { until: Some(shown(2)), ..bad() };
    assert!(matches!(
        parse(&address(), bad()),
        Err(Reply::InvalidParams(InvalidParams::InvalidLimit { max: 10 }))
    ));
    assert!(matches!(
        parse(&address(), RpcSignaturesForAddressConfig { limit: Some(0), ..bad() }),
        Err(Reply::InvalidParams(InvalidParams::InvalidLimit { max: 10 }))
    ));
    let bad = || RpcSignaturesForAddressConfig { limit: None, ..bad() };
    assert!(matches!(
        parse(&address(), bad()),
        Err(Reply::InvalidParams(InvalidParams::CommitmentBelowConfirmed))
    ));
    let bad = || RpcSignaturesForAddressConfig { commitment: None, ..bad() };
    assert!(matches!(
        parse(&address(), bad()),
        Err(Reply::Custom(RpcCustomError::MinContextSlotNotReached { context_slot: 1000 }))
    ));
    let good = RpcSignaturesForAddressConfig { min_context_slot: None, ..bad() };
    let request = parse(&address(), good).unwrap();
    assert_eq!(request.before.unwrap().bytes, [1u8; 64]);
    assert_eq!(request.until.unwrap().bytes, [2u8; 64]);
}

#[test]
fn local_signatures_are_enough() {
    let read = |finished, n: u8| ReadResultSignaturesForAddress {
        signatures: (0..n).map(|i| record(i, &i.to_string())).collect(),
        finished,
        before: None,
    };
    for (read, limit) in [(read(true, 2), 5), (read(false, 2), 2)] {
        match payload(request(limit).on_read(&with_upstream(), &read, None)) {
            Payload::Signatures(list) => assert_eq!(list, ["0", "1"]),
            other => panic!("{other:?}"),
        }
    }
    match payload(request(5).on_read(&state(vec![]), &read(false, 2), None)) {
        Payload::Signatures(list) => assert_eq!(list, ["0", "1"]),
        other => panic!("{other:?}"),
    }
    let mut disabled = request(5);
    disabled.upstream_disabled = true;
    assert!(matches!(
        disabled.on_read(&with_upstream(), &read(false, 2), None),
        Action::Reply(_)
    ));
}

#[test]
fn lacking_signatures_are_asked_for() {
    let read = ReadResultSignaturesForAddress {
        signatures: vec![record(1, "1"), record(2, "2")],
        finished: false,
        before: Some(Signature { bytes: [9; 64] }),
    };
    let last = RpcRequestSignaturesForAddress::last_signature(&read.signatures).unwrap().unwrap();
    assert_eq!(last.bytes, [2u8; 64]);
    match request(5).on_read(&with_upstream(), &read, Some(last)) {
        Action::Upstream {
            index,
            call: UpstreamCall::SignaturesForAddress { before, limit, .. },
            reason,
        } => {
            assert_eq!((index, limit, reason), (0, 3, Reason::IncompleteResults));
            assert_eq!(before.unwrap().bytes, [2u8; 64]);
        }
        other => panic!("{other:?}"),
    }
    let none = ReadResultSignaturesForAddress { signatures: vec![], ..read };
    assert!(RpcRequestSignaturesForAddress::last_signature(&none.signatures).is_none());
    match request(5).on_read(&with_upstream(), &none, None) {
        Action::Upstream { call: UpstreamCall::SignaturesForAddress { before, .. }, .. } => {
            assert_eq!(before.unwrap().bytes, [9u8; 64]);
        }
        other => panic!("{other:?}"),
    }
}

#[test]
fn upstream_signatures_are_appended() {
    let local = vec![record(1, r#"{"local":1}"#)];
    let bytes = br#"{"jsonrpc":"2.0","id":1,"result":[{"signature":"abc","slot":3,"err":null,"memo":null,"blockTime":4,"confirmationStatus":"finalized"}]}"#.to_vec();
    match payload(RpcRequestSignaturesForAddress::on_upstream(&local, Ok(bytes))) {
        Payload::Signatures(list) => {
            assert_eq!(list.len(), 2);
            assert_eq!(list[0], r#"{"local":1}"#);
            let value: serde_json::Value = serde_json::from_str(&list[1]).unwrap();
            assert_eq!(value["signature"], serde_json::Value::from("abc"));
            assert_eq!(value["slot"], serde_json::Value::from(3));
            assert_eq!(value["blockTime"], serde_json::Value::from(4));
            let reply = respond(&Id::Number(1), Reply::Success(Payload::Signatures(list)));
            let value: serde_json::Value = serde_json::from_slice(&reply).unwrap();
            assert_eq!(value["result"][1]["confirmationStatus"], serde_json::Value::from("finalized"));
        }
        other => panic!("{other:?}"),
    }
}

#[test]
fn upstream_errors_are_handed_on() {
    let bytes =
        br#"{"jsonrpc":"2.0","id":1,"error":{"code":-32000,"message":"no"}}"#.to_vec();
    match RpcRequestSignaturesForAddress::on_upstream(&vec![], Ok(bytes.clone())) {
        Action::Reply(Reply::Forward(forwarded)) => assert_eq!(forwarded, bytes),
        other => panic!("{other:?}"),
    }
    assert!(matches!(
        RpcRequestSignaturesForAddress::on_upstream(&vec![], Ok(b"oops".to_vec())),
        Action::Fail(Failure::UpstreamMalformed)
    ));
    assert!(matches!(
        RpcRequestSignaturesForAddress::on_upstream(&vec![], Err("down".to_string())),
        Action::Fail(Failure::Upstream(_))
    ));
}

// ------------------------------------------------------- statuses

fn statuses_request(search: bool) -> RpcRequestSignatureStatuses {
    RpcRequestSignatureStatuses::parse(
        &with_upstream(),
        false,
        &vec![shown(1), shown(2), shown(3)],
        Some(search),
    )
    .unwrap()
}

fn status(n: u64) -> Option<String> {
    Some(format!("{{\"n\":{n}}}"))
}

#[test]
fn the_number_of_signatures_is_that_of_the_interface() {
    assert_eq!(
        MAX_GET_SIGNATURE_STATUSES_QUERY_ITEMS,
        solana_rpc_client_api::request::MAX_GET_SIGNATURE_STATUSES_QUERY_ITEMS
    );
}

#[test]
fn status_requests_are_refused_in_order() {
    let mut closed = with_upstream();
    closed.gss_transaction_history = false;
    let many = vec!["x".to_string(); 257];
    assert!(matches!(
        RpcRequestSignatureStatuses::parse(&closed, false, &many, Some(true)),
        Err(Reply::InvalidParams(InvalidParams::TooManyInputs { max: 256 }))
    ));
    assert!(matches!(
        RpcRequestSignatureStatuses::parse(&closed, false, &vec!["x".to_string()], Some(true)),
        Err(Reply::InvalidParams(InvalidParams::InvalidParam(ParseError::WrongSize)))
    ));
    assert!(matches!(
        RpcRequestSignatureStatuses::parse(&closed, false, &vec![shown(1)], Some(true)),
        Err(Reply::Custom(RpcCustomError::TransactionHistoryNotAvailable))
    ));
    let request =
        RpcRequestSignatureStatuses::parse(&closed, false, &vec![shown(1)], None).unwrap();
    assert!(!request.search_transaction_history);
    match request.start() {
        Action::Read(ReadRequest::SignatureStatuses { signatures, search_transaction_history }) => {
            assert_eq!(signatures[0].bytes, [1u8; 64]);
            assert!(!search_transaction_history);
        }
        other => panic!("{other:?}"),
    }
    assert!(RpcRequestSignatureStatuses::parse(&closed, false, &vec![shown(1); 256], None).is_ok());
}

#[test]
fn local_statuses_are_enough() {
    let known = vec![status(1), status(2), status(3)];
    let gaps = vec![status(1), None, None];
    for (request, list, state) in [
        (statuses_request(true), &known, with_upstream()),
        (statuses_request(false), &gaps, with_upstream()),
        (statuses_request(true), &gaps, state(vec![])),
    ] {
        match payload(request.on_read(&state, &slots(), list)) {
            Payload::Statuses { slot, statuses } => {
                assert_eq!(slot, 3000);
                assert_eq!(&statuses, list);
            }
            other => panic!("{other:?}"),
        }
    }
}

#[test]
fn missing_statuses_are_asked_for_and_filled_in() {
    let gaps = vec![None, status(2), None];
    match statuses_request(true).on_read(&with_upstream(), &slots(), &gaps) {
        Action::Upstream { index, call: UpstreamCall::SignatureStatuses { signatures }, reason } => {
            assert_eq!((index, reason), (0, Reason::MissingStatus));
            let bytes: Vec<u8> = signatures.iter().map(|signature| signature.bytes[0]).collect();
            assert_eq!(bytes, [1, 3]);
        }
        other => panic!("{other:?}"),
    }
    let values = vec![None, status(3), status(4)];
    match payload(RpcRequestSignatureStatuses::on_statuses(&slots(), &gaps, &values)) {
        Payload::Statuses { statuses, .. } => assert_eq!(statuses, [None, status(2), status(3)]),
        other => panic!("{other:?}"),
    }
}

#[test]
fn upstream_statuses_are_read() {
    let gaps = vec![None, status(2), None];
    let bytes = br#"{"jsonrpc":"2.0","id":1,"result":{"context":{"slot":9},"value":[null,{"slot":8,"confirmations":null,"status":{"Ok":null},"err":null,"confirmationStatus":"finalized"}]}}"#.to_vec();
    match payload(
        RpcRequestSignatureStatuses::on_upstream(&slots(), &gaps, Ok(bytes)).unwrap(),
    ) {
        Payload::Statuses { slot, statuses } => {
            assert_eq!(slot, 3000);
            assert_eq!(statuses[0], None);
            assert_eq!(statuses[1], status(2));
            let value: serde_json::Value =
                serde_json::from_str(statuses[2].as_ref().unwrap()).unwrap();
            assert_eq!(value["slot"], serde_json::Value::from(8));
            assert_eq!(value["confirmationStatus"], serde_json::Value::from("finalized"));
        }
        other => panic!("{other:?}"),
    }
    let few = br#"{"jsonrpc":"2.0","id":1,"result":{"context":{"slot":9},"value":[null]}}"#.to_vec();
    assert!(RpcRequestSignatureStatuses::on_upstream(&slots(), &gaps, Ok(few)).is_none());
    let error = br#"{"jsonrpc":"2.0","id":1,"error":{"code":1,"message":"no"}}"#.to_vec();
    assert!(matches!(
        RpcRequestSignatureStatuses::on_upstream(&slots(), &gaps, Ok(error)),
        Some(Action::Reply(Reply::Forward(_)))
    ));
    assert!(matches!(
        RpcRequestSignatureStatuses::on_upstream(&slots(), &gaps, Ok(vec![])),
        Some(Action::Fail(Failure::UpstreamMalformed))
    ));
    assert!(matches!(
        RpcRequestSignatureStatuses::on_upstream(&slots(), &gaps, Err(String::new())),
        Some(Action::Fail(Failure::Upstream(_)))
    ));
}

// ------------------------------------------------------- a transaction

fn transaction(upstream_disabled: bool, commitment: Commitment) -> RpcRequestTransaction {
    let config = RpcTransactionConfig {
        encoding: Some(UiTransactionEncoding::Base58),
        commitment: Some(commitment),
        max_supported_transaction_version: Some(0),
    };
    RpcRequestTransaction::parse(
        upstream_disabled,
        &shown(4),
        Some(RpcEncodingConfigWrapper::Current(Some(config))),
    )
    .unwrap()
}

fn found(slot: u64) -> Read<ReadResultTransaction> {
    Read::Value(ReadResultTransaction::Transaction {
        slot,
        block_time: Some(1),
        bytes: vec![2],
        index: 3,
    })
}

#[test]
fn transaction_requests_are_read() {
    let request = RpcRequestTransaction::parse(false, &shown(4), None).unwrap();
    assert_eq!(request.signature.bytes, [4u8; 64]);
    assert_eq!(request.encoding, UiTransactionEncoding::Json);
    assert!(matches!(request.start(), Action::Read(ReadRequest::Transaction { .. })));
    assert!(matches!(
        RpcRequestTransaction::parse(false, "x", None),
        Err(Reply::InvalidParams(InvalidParams::InvalidParam(ParseError::WrongSize)))
    ));
    let low = RpcTransactionConfig {
        encoding: None,
        commitment: Some(Commitment::Processed),
        max_supported_transaction_version: None,
    };
    assert!(matches!(
        RpcRequestTransaction::parse(
            false,
            &shown(4),
            Some(RpcEncodingConfigWrapper::Current(Some(low)))
        ),
        Err(Reply::InvalidParams(InvalidParams::CommitmentBelowConfirmed))
    ));
    let old = RpcRequestTransaction::parse(
        false,
        &shown(4),
        Some(RpcEncodingConfigWrapper::Deprecated(Some(UiTransactionEncoding::Base64))),
    )
    .unwrap();
    assert_eq!(old.encoding, UiTransactionEncoding::Base64);
}

#[test]
fn transactions_are_encoded() {
    let with = state(vec![ConfigRpcCallJson::GetTransaction]);
    match transaction(false, Commitment::Finalized).on_read(&with, &slots(), found(1000)) {
        Action::Encode(WorkRequest::Transaction(work)) => {
            assert_eq!((work.slot, work.block_time, work.index), (1000, Some(1), 3));
            assert_eq!(work.bytes, [2]);
            assert_eq!(work.encoding, UiTransactionEncoding::Base58);
            assert_eq!(work.max_supported_transaction_version, Some(0));
        }
        other => panic!("{other:?}"),
    }
    assert!(matches!(
        transaction(false, Commitment::Finalized).on_read(&with, &slots(), found(1001)),
        Action::Reply(Reply::Success(Payload::Null))
    ));
    assert!(matches!(
        transaction(false, Commitment::Confirmed).on_read(&with, &slots(), found(1001)),
        Action::Encode(_)
    ));
    assert!(matches!(
        transaction(false, Commitment::Confirmed).on_read(&with, &slots(), Read::Lost),
        Action::Fail(Failure::ReplyChannelClosed)
    ));
}

#[test]
fn missing_transactions_are_asked_for() {
    let with = state(vec![ConfigRpcCallJson::GetTransaction]);
    let missing = || Read::Value(ReadResultTransaction::NotFound);
    assert!(matches!(
        transaction(false, Commitment::Confirmed).on_read(&with, &slots(), missing()),
        Action::Upstream {
            index: 0,
            call: UpstreamCall::Transaction { .. },
            reason: Reason::NotFoundLocally
        }
    ));
    assert!(matches!(
        transaction(false, Commitment::Confirmed).on_read(&with, &slots(), found(100)),
        Action::Upstream { reason: Reason::BelowRetention, .. }
    ));
    assert!(matches!(
        transaction(true, Commitment::Confirmed).on_read(&with, &slots(), missing()),
        Action::Reply(Reply::Success(Payload::Null))
    ));
    assert!(matches!(
        transaction(false, Commitment::Confirmed).on_read(&state(vec![]), &slots(), missing()),
        Action::Reply(Reply::Custom(RpcCustomError::TransactionHistoryNotAvailable))
    ));
}

#[test]
fn lacking_signatures_are_asked_for_behind_the_last_one() {
    let read = |signatures| ReadResultSignaturesForAddress {
        signatures,
        finished: false,
        before: Some(Signature { bytes: [9; 64] }),
    };
    let before = |read| match request(5).on_storage(&with_upstream(), &read) {
        Some(Action::Upstream {
            call: UpstreamCall::SignaturesForAddress { before, .. },
            ..
        }) => before.unwrap().bytes,
        other => panic!("{other:?}"),
    };
    assert_eq!(before(read(vec![record(1, "1"), record(2, "2")])), [2u8; 64]);
    assert_eq!(before(read(vec![])), [9u8; 64]);

    let malformed = || {
        let last = SignatureRecord { signature: "bad".to_string(), ..record(2, "2") };
        read(vec![record(1, "1"), last])
    };
    assert!(request(5).on_storage(&with_upstream(), &malformed()).is_none());
    for (request, state) in [(request(2), with_upstream()), (request(5), state(vec![]))] {
        match payload(request.on_storage(&state, &malformed()).unwrap()) {
            Payload::Signatures(list) => assert_eq!(list, ["1", "2"]),
            other => panic!("{other:?}"),
        }
    }
}
