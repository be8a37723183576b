use alpamayo::rpc::jsonrpc::{InvalidParams, RpcCustomError};
use alpamayo::rpc::keys::{contains_key, verify_pubkeys, verify_signatures, ParseError, Pubkey};
use alpamayo::rpc::params::{verify_pubkey, verify_signature};
use alpamayo::rpc::state::{
    check_is_at_least_confirmed, create_request_processor, min_context_check, polled_slot,
    unwrap_commitment, Commitment, ConfigError, ConfigRpc, ConfigRpcCallJson, State, StoredSlots,
    Upstream,
};

fn config(calls: Vec<ConfigRpcCallJson>, upstreams: Vec<Upstream>) -> ConfigRpc {
    ConfigRpc {
        calls_jsonrpc: calls,
        upstreams,
        gsfa_limit: 1000,
        gtfa_limit_signatures: 1000,
        gtfa_limit_full: 100,
        gss_transaction_history: true,
        grpf_percentile: true,
        health_check_slot_distance: 10,
        health_check_rpc: true,
    }
}

fn both() -> Vec<ConfigRpcCallJson> {
    vec![ConfigRpcCallJson::GetClusterNodes, ConfigRpcCallJson::GetLeaderSchedule]
}

#[test]
fn methods_are_registered_in_order() {
    let calls = vec![
        ConfigRpcCallJson::IsBlockhashValid,
        ConfigRpcCallJson::GetHealth,
        ConfigRpcCallJson::GetBlock,
        ConfigRpcCallJson::GetBlock,
    ];
    let processor = create_request_processor(config(calls, vec![])).unwrap();
    let names: Vec<&str> = processor.handlers.iter().map(|call| call.method()).collect();
    assert_eq!(names, ["getBlock", "getHealth", "isBlockhashValid"]);
    assert!(processor.polls_cluster_slot);
    assert_eq!(processor.state.gsfa_limit, 1000);
}

#[test]
fn all_methods_can_be_registered() {
    let calls = vec![
        ConfigRpcCallJson::GetBlock,
        ConfigRpcCallJson::GetBlockHeight,
        ConfigRpcCallJson::GetBlocks,
        ConfigRpcCallJson::GetBlocksWithLimit,
        ConfigRpcCallJson::GetBlockTime,
        ConfigRpcCallJson::GetClusterNodes,
        ConfigRpcCallJson::GetFirstAvailableBlock,
        ConfigRpcCallJson::GetHealth,
        ConfigRpcCallJson::GetInflationReward,
        ConfigRpcCallJson::GetLatestBlockhash,
        ConfigRpcCallJson::GetLeaderSchedule,
        ConfigRpcCallJson::GetRecentPrioritizationFees,
        ConfigRpcCallJson::GetSignaturesForAddress,
        ConfigRpcCallJson::GetSignatureStatuses,
        ConfigRpcCallJson::GetSlot,
        ConfigRpcCallJson::GetTransaction,
        ConfigRpcCallJson::GetTransactionsForAddress,
        ConfigRpcCallJson::GetVersion,
        ConfigRpcCallJson::IsBlockhashValid,
    ];
    let processor =
        create_request_processor(config(calls, vec![Upstream { calls: both() }])).unwrap();
    let names: Vec<&str> = processor.handlers.iter().map(|call| call.method()).collect();
    assert_eq!(
        names,
        [
            "getBlock",
            "getBlockHeight",
            "getBlocks",
            "getBlocksWithLimit",
            "getBlockTime",
            "getClusterNodes",
            "getFirstAvailableBlock",
            "getHealth",
            "getInflationReward",
            "getLatestBlockhash",
            "getLeaderSchedule",
            "getRecentPrioritizationFees",
            "getSignaturesForAddress",
            "getSignatureStatuses",
            "getSlot",
            "getTransaction",
            "getTransactionsForAddress",
            "getVersion",
            "isBlockhashValid",
        ]
    );
}

#[test]
fn the_cluster_is_polled_only_for_health() {
    let processor =
        create_request_processor(config(vec![ConfigRpcCallJson::GetSlot], vec![])).unwrap();
    assert!(!processor.polls_cluster_slot);
    let mut without = config(vec![ConfigRpcCallJson::GetHealth], vec![]);
    without.health_check_rpc = false;
    assert!(!create_request_processor(without).unwrap().polls_cluster_slot);
    assert_eq!(polled_slot(Some(5)), 5);
    assert_eq!(polled_slot(None), 0);
}

#[test]
fn methods_without_a_local_source_need_an_upstream() {
    for call in both() {
        let error = State::new(config(vec![call], vec![])).unwrap_err();
        assert_eq!(error, ConfigError::UpstreamMissing);
        assert_eq!(
            error.message(),
            "at least one upstream should support `getClusterNodes` and `getLeaderSchedule`"
        );
        let half = vec![Upstream { calls: vec![call] }];
        assert!(State::new(config(vec![call], half)).is_err());
        let split = vec![
            Upstream { calls: vec![ConfigRpcCallJson::GetLeaderSchedule] },
            Upstream { calls: vec![ConfigRpcCallJson::GetClusterNodes] },
        ];
        let state = State::new(config(vec![call], split)).unwrap();
        assert!(state.get_upstream(call).is_some());
    }
    assert!(create_request_processor(config(both(), vec![])).is_err());
    assert!(State::new(config(vec![ConfigRpcCallJson::GetSlot], vec![])).is_ok());
}

#[test]
fn the_first_supporting_upstream_is_taken() {
    let upstreams = vec![
        Upstream { calls: vec![ConfigRpcCallJson::GetBlocks] },
        Upstream { calls: vec![ConfigRpcCallJson::GetBlock] },
        Upstream { calls: vec![ConfigRpcCallJson::GetBlock, ConfigRpcCallJson::GetBlocks] },
    ];
    let state = State::new(config(vec![], upstreams)).unwrap();
    assert_eq!(state.get_upstream(ConfigRpcCallJson::GetBlock), Some(1));
    assert_eq!(state.get_upstream(ConfigRpcCallJson::GetBlocks), Some(0));
    assert_eq!(state.get_upstream(ConfigRpcCallJson::GetSlot), None);
    assert_eq!(state.get_allowed_upstream(false, ConfigRpcCallJson::GetBlock), Some(1));
    assert_eq!(state.get_allowed_upstream(true, ConfigRpcCallJson::GetBlock), None);
}

#[test]
fn commitments_are_checked() {
    assert_eq!(unwrap_commitment(None), Commitment::Finalized);
    assert_eq!(unwrap_commitment(Some(Commitment::Processed)), Commitment::Processed);
    assert!(check_is_at_least_confirmed(Commitment::Finalized).is_ok());
    assert!(check_is_at_least_confirmed(Commitment::Confirmed).is_ok());
    assert_eq!(
        check_is_at_least_confirmed(Commitment::Processed),
        Err(InvalidParams::CommitmentBelowConfirmed)
    );
}

#[test]
fn the_context_slot_is_checked() {
    let slots = StoredSlots { first_available: 1, processed: 30, confirmed: 20, finalized: 10 };
    assert_eq!(min_context_check(None, Commitment::Processed, &slots), Ok(None));
    assert_eq!(min_context_check(Some(30), Commitment::Processed, &slots), Ok(Some(30)));
    assert_eq!(min_context_check(Some(5), Commitment::Confirmed, &slots), Ok(Some(20)));
    assert_eq!(
        min_context_check(Some(11), Commitment::Finalized, &slots),
        Err(RpcCustomError::MinContextSlotNotReached { context_slot: 10 })
    );
}

#[test]
fn addresses_are_read() {
    let bytes = [9u8; 32];
    let shown = solana_pubkey::Pubkey::from(bytes).to_string();
    assert_eq!(verify_pubkey(&shown).unwrap().bytes, bytes);
    assert_eq!(verify_pubkey("11111111111111111111111111111111").unwrap().bytes, [0u8; 32]);
    assert_eq!(
        verify_pubkey("short").unwrap_err(),
        InvalidParams::InvalidParam(ParseError::WrongSize)
    );
    assert_eq!(
        verify_pubkey(&shown.replace(|_| true, "0")).unwrap_err(),
        InvalidParams::InvalidParam(ParseError::Invalid)
    );
}

#[test]
fn signatures_are_read() {
    let bytes = [200u8; 64];
    let shown = solana_signature::Signature::from(bytes).to_string();
    assert_eq!(verify_signature(&shown).unwrap().bytes, bytes);
    assert_eq!(
        verify_signature("").unwrap_err(),
        InvalidParams::InvalidParam(ParseError::WrongSize)
    );
    assert_eq!(
        verify_signature(&"0".repeat(64)).unwrap_err(),
        InvalidParams::InvalidParam(ParseError::Invalid)
    );
}

#[test]
fn lists_are_read_up_to_the_first_error() {
    let one = solana_pubkey::Pubkey::from([1u8; 32]).to_string();
    let two = solana_pubkey::Pubkey::from([2u8; 32]).to_string();
    let keys = verify_pubkeys(&vec![one.clone(), two]).unwrap();
    assert_eq!(keys.iter().map(|key| key.bytes[0]).collect::<Vec<_>>(), [1, 2]);
    assert!(verify_pubkeys(&vec![]).unwrap().is_empty());
    let invalid = "0".repeat(32);
    assert_eq!(
        verify_pubkeys(&vec![one.clone(), "x".to_string(), invalid.clone()]).unwrap_err(),
        ParseError::WrongSize
    );
    assert_eq!(
        verify_pubkeys(&vec![one, invalid, "x".to_string()]).unwrap_err(),
        ParseError::Invalid
    );
    let signature = solana_signature::Signature::from([3u8; 64]).to_string();
    assert_eq!(verify_signatures(&vec![signature.clone()]).unwrap()[0].bytes, [3u8; 64]);
    assert_eq!(
        verify_signatures(&vec![signature, "x".to_string()]).unwrap_err(),
        ParseError::WrongSize
    );
}

#[test]
fn addresses_are_compared() {
    let mut other = [5u8; 32];
    other[31] = 6;
    let (a, b) = (Pubkey { bytes: [5u8; 32] }, Pubkey { bytes: other });
    assert!(a.same(&a));
    assert!(!a.same(&b));
    assert!(contains_key(&vec![b, a], &a));
    assert!(!contains_key(&vec![b], &a));
}
