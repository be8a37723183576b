use alpamayo::rpc::action::{Action, Failure, Read, ReadRequest, Reason, UpstreamCall};
use alpamayo::rpc::cluster::{
    ReadResultBlockhashValid, ReadResultLatestBlockhash, RpcLeaderScheduleConfig,
    RpcLeaderScheduleConfigWrapper, RpcRecentPrioritizationFeesConfig, RpcRequestClusterNodes,
    RpcRequestFirstAvailableBlock, RpcRequestHealth, RpcRequestIsBlockhashValid,
    RpcRequestLatestBlockhash, RpcRequestLeaderSchedule, RpcRequestRecentPrioritizationFees,
    RpcRequestSlot, RpcRequestVersion, MAX_TX_ACCOUNT_LOCKS,
};
use alpamayo::rpc::jsonrpc::{
    InvalidParams, Payload, Reply, RpcCustomError, RpcPrioritizationFee, UnexpectedParams,
};
use alpamayo::rpc::keys::ParseError;
use alpamayo::rpc::params::RpcContextConfig;
use alpamayo::rpc::state::{Commitment, ConfigRpcCallJson, State, StoredSlots, Upstream};

fn state(calls: Vec<ConfigRpcCallJson>) -> State {
    State {
        gsfa_limit: 10,
        gtfa_limit_signatures: 1000,
        gtfa_limit_full: 100,
        gss_transaction_history: true,
        grpf_percentile: true,
        upstreams: vec![Upstream { calls }],
        health_check_slot_distance: 10,
    }
}

fn slots() -> StoredSlots {
    StoredSlots {
        first_available: 100,
        processed: 3_000_000,
        confirmed: 2_000_000,
        finalized: 1_000_000,
    }
}

fn context(commitment: Option<Commitment>, min_context_slot: Option<u64>) -> RpcContextConfig {
    RpcContextConfig { commitment, min_context_slot }
}

fn shown(byte: u8) -> String {
    solana_pubkey::Pubkey::from([byte; 32]).to_string()
}

#[test]
fn cluster_nodes_come_from_upstream() {
    let request = RpcRequestClusterNodes::parse(None).unwrap();
    assert!(matches!(
        request.start(&state(vec![ConfigRpcCallJson::GetClusterNodes])),
        Action::Upstream { index: 0, call: UpstreamCall::ClusterNodes, reason: Reason::Always }
    ));
    assert!(matches!(
        RpcRequestClusterNodes::parse(Some("[1]")),
        Err(Reply::UnexpectedParams(UnexpectedParams::Present(_)))
    ));
}

#[test]
fn the_first_block_comes_from_upstream_or_the_storage() {
    let with = state(vec![ConfigRpcCallJson::GetFirstAvailableBlock]);
    let request = |disabled| RpcRequestFirstAvailableBlock::parse(disabled, Some("[]")).unwrap();
    assert!(matches!(
        request(false).start(&with, &slots()),
        Action::Upstream { call: UpstreamCall::FirstAvailableBlock, reason: Reason::Always, .. }
    ));
    assert!(matches!(
        request(true).start(&with, &slots()),
        Action::Reply(Reply::Success(Payload::Number(100)))
    ));
    assert!(matches!(
        request(false).start(&state(vec![]), &slots()),
        Action::Reply(Reply::Success(Payload::Number(100)))
    ));
    assert!(RpcRequestFirstAvailableBlock::parse(false, Some("{")).is_err());
}

#[test]
fn health_depends_on_the_distance() {
    let health = |disabled, cluster_slot| {
        RpcRequestHealth::parse(&state(vec![]), &slots(), disabled, cluster_slot, None)
    };
    let ok = |reply: Reply| {
        matches!(reply, Reply::Success(Payload::Text(text)) if text == "ok")
    };
    assert!(ok(health(false, 0)));
    assert!(ok(health(false, 5)));
    assert!(ok(health(false, 3_000_010)));
    assert!(matches!(
        health(false, 3_000_011),
        Reply::Custom(RpcCustomError::NodeUnhealthy { num_slots_behind: Some(11) })
    ));
    assert!(matches!(
        health(true, 0),
        Reply::Custom(RpcCustomError::NodeUnhealthy { num_slots_behind: None })
    ));
    assert!(matches!(
        RpcRequestHealth::parse(&state(vec![]), &slots(), true, 0, Some("[0]")),
        Reply::UnexpectedParams(UnexpectedParams::Present(_))
    ));
}

#[test]
fn the_latest_blockhash_is_given() {
    let request =
        RpcRequestLatestBlockhash::parse(&slots(), Some(context(Some(Commitment::Processed), None)))
            .unwrap();
    assert!(matches!(
        request.start(),
        Action::Read(ReadRequest::LatestBlockhash { commitment: Commitment::Processed })
    ));
    let latest = ReadResultLatestBlockhash {
        slot: 1,
        blockhash: "abc".to_string(),
        last_valid_block_height: 2,
    };
    match request.on_read(Read::Value(latest)) {
        Action::Reply(Reply::Success(Payload::Blockhash {
            slot,
            blockhash,
            last_valid_block_height,
        })) => assert_eq!((slot, blockhash.as_str(), last_valid_block_height), (1, "abc", 2)),
        other => panic!("{other:?}"),
    }
    assert!(matches!(request.on_read(Read::Timeout), Action::Fail(Failure::Timeout)));
    assert!(matches!(
        RpcRequestLatestBlockhash::parse(&slots(), Some(context(None, Some(1_000_001)))),
        Err(Reply::Custom(RpcCustomError::MinContextSlotNotReached { context_slot: 1_000_000 }))
    ));
}

#[test]
fn leader_schedules_are_those_of_a_slot() {
    let parse = |options, config| RpcRequestLeaderSchedule::parse(&slots(), options, config);
    let only = |slot| Some(RpcLeaderScheduleConfigWrapper::SlotOnly(Some(slot)));
    let request = parse(None, None).unwrap();
    assert_eq!((request.slot, request.is_processed), (1_000_000, false));
    let request = parse(only(2_000_001), None).unwrap();
    assert_eq!((request.slot, request.is_processed), (2_000_001, true));
    let request = parse(only(2_000_000), None).unwrap();
    assert!(!request.is_processed);
    assert!(matches!(parse(only(3_000_001), None), Err(Reply::Success(Payload::Null))));
    let with = |commitment| {
        Some(RpcLeaderScheduleConfig { identity: None, commitment: Some(commitment) })
    };
    let request = parse(None, with(Commitment::Processed)).unwrap();
    assert_eq!((request.slot, request.is_processed), (3_000_000, true));
    let request = parse(
        Some(RpcLeaderScheduleConfigWrapper::ConfigOnly(with(Commitment::Confirmed))),
        with(Commitment::Processed),
    )
    .unwrap();
    assert_eq!((request.slot, request.is_processed), (2_000_000, false));
}

#[test]
fn leader_schedules_come_from_upstream() {
    let config = RpcLeaderScheduleConfig { identity: Some(shown(3)), commitment: None };
    let request = RpcRequestLeaderSchedule::parse(&slots(), None, Some(config)).unwrap();
    match request.start(&state(vec![ConfigRpcCallJson::GetLeaderSchedule])) {
        Action::Upstream {
            call: UpstreamCall::LeaderSchedule { epoch, slot, is_processed, identity },
            reason,
            ..
        } => {
            assert_eq!((epoch, slot, is_processed), (2, 1_000_000, false));
            assert_eq!(identity, Some(shown(3)));
            assert_eq!(reason, Reason::Always);
        }
        other => panic!("{other:?}"),
    }
    let config = RpcLeaderScheduleConfig { identity: Some("x".to_string()), commitment: None };
    assert!(matches!(
        RpcRequestLeaderSchedule::parse(&slots(), None, Some(config)),
        Err(Reply::InvalidParams(InvalidParams::InvalidParam(ParseError::WrongSize)))
    ));
}

#[test]
fn epochs_begin_at_their_first_slot() {
    let epoch_of = |slot| {
        let options = Some(RpcLeaderScheduleConfigWrapper::SlotOnly(Some(slot)));
        let request = RpcRequestLeaderSchedule::parse(&slots(), options, None).unwrap();
        match request.start(&state(vec![ConfigRpcCallJson::GetLeaderSchedule])) {
            Action::Upstream { call: UpstreamCall::LeaderSchedule { epoch, .. }, .. } => epoch,
            other => panic!("{other:?}"),
        }
    };
    assert_eq!(epoch_of(0), 0);
    assert_eq!(epoch_of(431_999), 0);
    assert_eq!(epoch_of(432_000), 1);
    assert_eq!(epoch_of(863_999), 1);
    assert_eq!(epoch_of(864_000), 2);
}

#[test]
fn the_number_of_addresses_is_that_of_the_runtime() {
    assert_eq!(MAX_TX_ACCOUNT_LOCKS, solana_transaction::sanitized::MAX_TX_ACCOUNT_LOCKS);
}

#[test]
fn fee_requests_are_refused_in_order() {
    let percentile = |percentile| Some(RpcRecentPrioritizationFeesConfig { percentile });
    let parse = |strs: Vec<String>, config| {
        RpcRequestRecentPrioritizationFees::parse(&state(vec![]), &strs, config)
    };
    let big = || percentile(Some(10_001));
    assert!(matches!(
        parse(vec!["x".to_string(); 129], big()),
        Err(Reply::InvalidParams(InvalidParams::TooManyInputs { max: 128 }))
    ));
    assert!(matches!(
        parse(vec!["x".to_string(); 128], big()),
        Err(Reply::InvalidParams(InvalidParams::InvalidParam(ParseError::WrongSize)))
    ));
    assert!(matches!(
        parse(vec![], big()),
        Err(Reply::InvalidParams(InvalidParams::PercentileTooBig))
    ));
    let request = parse(vec![shown(1)], percentile(Some(10_000))).unwrap();
    assert_eq!(request.percentile, Some(10_000));
    assert_eq!(request.pubkeys[0].bytes, [1u8; 32]);
    let mut off = state(vec![]);
    off.grpf_percentile = false;
    let request = RpcRequestRecentPrioritizationFees::parse(&off, &vec![], big()).unwrap();
    assert_eq!(request.percentile, None);
}

#[test]
fn fees_are_given() {
    let request =
        RpcRequestRecentPrioritizationFees::parse(&state(vec![]), &vec![shown(1)], None).unwrap();
    match request.start() {
        Action::Read(ReadRequest::RecentPrioritizationFees { pubkeys, percentile }) => {
            assert_eq!(pubkeys.len(), 1);
            assert_eq!(percentile, None);
        }
        other => panic!("{other:?}"),
    }
    let fees = vec![RpcPrioritizationFee { slot: 1, prioritization_fee: 2 }];
    match RpcRequestRecentPrioritizationFees::on_read(Read::Value(fees.clone())) {
        Action::Reply(Reply::Success(Payload::Fees(given))) => assert_eq!(given, fees),
        other => panic!("{other:?}"),
    }
    assert!(matches!(
        RpcRequestRecentPrioritizationFees::on_read(Read::Timeout),
        Action::Fail(Failure::Timeout)
    ));
}

#[test]
fn slots_are_given() {
    let slot = |commitment| RpcRequestSlot::parse(&slots(), Some(context(commitment, None)));
    assert!(matches!(slot(None), Reply::Success(Payload::Number(1_000_000))));
    assert!(matches!(
        slot(Some(Commitment::Processed)),
        Reply::Success(Payload::Number(3_000_000))
    ));
    assert!(matches!(
        RpcRequestSlot::parse(&slots(), Some(context(Some(Commitment::Confirmed), Some(2_000_001)))),
        Reply::Custom(RpcCustomError::MinContextSlotNotReached { context_slot: 2_000_000 })
    ));
    assert!(matches!(
        RpcRequestSlot::parse(&slots(), None),
        Reply::Success(Payload::Number(1_000_000))
    ));
}

#[test]
fn the_version_is_that_of_the_software() {
    let version = solana_version::Version::default();
    match RpcRequestVersion::parse(None) {
        Reply::Success(Payload::Version { solana_core, feature_set }) => {
            assert_eq!(solana_core, "4.0.0");
            assert_eq!(solana_core, version.to_string());
            assert_eq!(feature_set, version.feature_set());
        }
        other => panic!("{other:?}"),
    }
    assert!(matches!(RpcRequestVersion::parse(Some("1")), Reply::UnexpectedParams(_)));
    assert!(matches!(
        RpcRequestVersion::reply(Ok(()), "1.2.3".to_string(), 4),
        Reply::Success(Payload::Version { feature_set: 4, .. })
    ));
}

#[test]
fn blockhashes_are_checked() {
    let text = solana_hash::Hash::new_from_array([5; 32]).to_string();
    let request = RpcRequestIsBlockhashValid::parse(&slots(), text.clone(), None).unwrap();
    assert_eq!(request.blockhash, text);
    match request.start() {
        Action::Read(ReadRequest::BlockhashValid { blockhash, commitment }) => {
            assert_eq!((blockhash, commitment), (text, Commitment::Finalized));
        }
        other => panic!("{other:?}"),
    }
    assert!(matches!(
        RpcRequestIsBlockhashValid::on_read(Read::Value(ReadResultBlockhashValid {
            slot: 6,
            is_valid: true
        })),
        Action::Reply(Reply::Success(Payload::BlockhashValid { slot: 6, is_valid: true }))
    ));
    assert!(matches!(
        RpcRequestIsBlockhashValid::on_read(Read::Lost),
        Action::Fail(Failure::ReplyChannelClosed)
    ));
}

#[test]
fn malformed_blockhashes_are_refused_last() {
    let late = Some(context(None, Some(1_000_001)));
    assert!(matches!(
        RpcRequestIsBlockhashValid::parse(&slots(), "x".to_string(), late),
        Err(Reply::Custom(RpcCustomError::MinContextSlotNotReached { .. }))
    ));
    assert!(matches!(
        RpcRequestIsBlockhashValid::parse(&slots(), "x".to_string(), None),
        Err(Reply::InvalidParams(InvalidParams::InvalidBlockhash(ParseError::WrongSize)))
    ));
    assert!(matches!(
        RpcRequestIsBlockhashValid::parse(&slots(), "0".repeat(32), None),
        Err(Reply::InvalidParams(InvalidParams::InvalidBlockhash(ParseError::Invalid)))
    ));
}
