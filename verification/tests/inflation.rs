use alpamayo::rpc::action::{
    Action, Failure, Read, ReadRequest, ReadResultBlock, ReadResultBlockHeight, ReadResultBlocks,
    Reason, RpcRequestBlocksUntil, TransactionDetails, UiTransactionEncoding, UpstreamCall,
    WorkRequest,
};
use alpamayo::rpc::inflation::fetch::{
    block_from_storage, block_from_upstream, blocks_from_storage, blocks_from_upstream,
    error_epoch_rewards_period_active, get_block_height, get_block_with_rewards,
    get_blocks_with_limit,
};
use alpamayo::rpc::inflation::process::{
    InflationPhase, InflationProcess, InflationRewardBaseValue, InflationStep, InflationWrite,
    ReadRequestResultInflationReward,
};
use alpamayo::rpc::inflation::request::{RpcEpochConfig, RpcRequestInflationReward};
use alpamayo::rpc::inflation::rewards::{
    filter_rewards, find_reward, Reward, RewardFilter, RewardType, RewardsBlock,
};
use alpamayo::rpc::jsonrpc::{
    InvalidParams, Payload, Reply, RpcCustomError, RpcInflationReward,
};
use alpamayo::rpc::keys::{Blockhash, ParseError, Pubkey};
use alpamayo::rpc::state::{Commitment, ConfigRpcCallJson, State, StoredSlots, Upstream};

fn key(byte: u8) -> Pubkey {
    Pubkey { bytes: [byte; 32] }
}

fn shown(byte: u8) -> String {
    solana_pubkey::Pubkey::from([byte; 32]).to_string()
}

fn state(calls: Vec<ConfigRpcCallJson>) -> State {
    State {
        gsfa_limit: 1000,
        gtfa_limit_signatures: 1000,
        gtfa_limit_full: 100,
        gss_transaction_history: true,
        grpf_percentile: true,
        upstreams: vec![Upstream { calls }],
        health_check_slot_distance: 10,
    }
}

fn slots() -> StoredSlots {
    StoredSlots {
        first_available: 100,
        processed: 5_000_000,
        confirmed: 4_000_000,
        finalized: 3_000_000,
    }
}

fn config(epoch: Option<u64>) -> RpcEpochConfig {
    RpcEpochConfig { epoch, commitment: None, min_context_slot: None }
}

fn reward(byte: u8, lamports: i64, reward_type: Option<RewardType>) -> Reward {
    Reward {
        pubkey: shown(byte),
        lamports,
        post_balance: 1000,
        reward_type,
        commission: Some(5),
        commission_bps: Some(500),
    }
}

fn stored(
    missed: Vec<usize>,
    base: Option<InflationRewardBaseValue>,
) -> ReadRequestResultInflationReward {
    ReadRequestResultInflationReward {
        addresses: vec![key(1), key(2), key(3), key(4)],
        rewards: vec![None, None, None, None],
        missed,
        base,
    }
}

fn base(partitions: Option<u64>) -> InflationRewardBaseValue {
    InflationRewardBaseValue {
        slot: 864_000,
        block_height: Some(800_000),
        previous_blockhash: Blockhash { bytes: [8; 32] },
        num_reward_partitions: partitions,
    }
}

#[test]
fn the_epoch_is_the_one_before_the_newest() {
    let request = RpcRequestInflationReward::parse(&slots(), false, &vec![shown(1)], config(None))
        .unwrap();
    // Slot 3000000 is in epoch 6.
    assert_eq!(request.epoch, 5);
    assert_eq!(request.commitment, Commitment::Finalized);
    assert_eq!(request.addresses[0].bytes, [1u8; 32]);
    let first = StoredSlots { finalized: 5, ..slots() };
    let request =
        RpcRequestInflationReward::parse(&first, false, &vec![], config(None)).unwrap();
    assert_eq!(request.epoch, 0);
    let request =
        RpcRequestInflationReward::parse(&slots(), true, &vec![], config(Some(77))).unwrap();
    assert_eq!(request.epoch, 77);
    assert!(matches!(
        request.start(),
        Action::Read(ReadRequest::InflationReward { epoch: 77, .. })
    ));
}

#[test]
fn reward_requests_are_refused() {
    let late = RpcEpochConfig { min_context_slot: Some(3_000_001), ..config(None) };
    assert!(matches!(
        RpcRequestInflationReward::parse(&slots(), false, &vec![], late),
        Err(Reply::Custom(RpcCustomError::MinContextSlotNotReached { context_slot: 3_000_000 }))
    ));
    let named = RpcEpochConfig { min_context_slot: Some(3_000_001), ..config(Some(1)) };
    assert!(RpcRequestInflationReward::parse(&slots(), false, &vec![], named).is_ok());
    assert!(matches!(
        RpcRequestInflationReward::parse(&slots(), false, &vec!["x".to_string()], late),
        Err(Reply::InvalidParams(InvalidParams::InvalidParam(ParseError::WrongSize)))
    ));
}

#[test]
fn rewards_are_filtered_by_type() {
    let boundary = |partitioned| RewardFilter::Boundary { partitioned };
    assert!(boundary(true).matches(Some(RewardType::Voting)));
    assert!(!boundary(true).matches(Some(RewardType::Staking)));
    assert!(boundary(false).matches(Some(RewardType::Staking)));
    assert!(!boundary(false).matches(Some(RewardType::DeactivatedStake)));
    assert!(!boundary(false).matches(Some(RewardType::Fee)));
    assert!(RewardFilter::Partition.matches(Some(RewardType::Staking)));
    assert!(RewardFilter::Partition.matches(Some(RewardType::DeactivatedStake)));
    assert!(!RewardFilter::Partition.matches(Some(RewardType::Voting)));
    assert!(!RewardFilter::Partition.matches(Some(RewardType::Rent)));
    assert!(!RewardFilter::Partition.matches(None));
}

#[test]
fn rewards_are_collected() {
    let rewards = Some(vec![
        reward(1, 10, Some(RewardType::Staking)),
        reward(2, 20, Some(RewardType::Fee)),
        reward(3, i64::MIN, Some(RewardType::Staking)),
        reward(1, -30, Some(RewardType::Staking)),
    ]);
    let list = filter_rewards(7, 99, RewardFilter::Partition, &rewards).unwrap();
    assert_eq!(
        find_reward(&list, &key(1)),
        Some(RpcInflationReward {
            epoch: 7,
            effective_slot: 99,
            amount: 30,
            post_balance: 1000,
            commission: Some(5),
            commission_bps: Some(500),
        })
    );
    assert_eq!(find_reward(&list, &key(2)), None);
    assert_eq!(find_reward(&list, &key(3)).unwrap().amount, i64::MIN.unsigned_abs());
    assert!(filter_rewards(7, 99, RewardFilter::Partition, &None).unwrap().is_empty());
}

#[test]
fn malformed_addresses_fail_where_they_count() {
    let bad = |reward_type| Reward { pubkey: "bad".to_string(), ..reward(1, 1, reward_type) };
    let rewards = Some(vec![bad(Some(RewardType::Fee)), bad(Some(RewardType::Voting))]);
    assert!(filter_rewards(7, 99, RewardFilter::Partition, &rewards).unwrap().is_empty());
    match filter_rewards(7, 99, RewardFilter::Boundary { partitioned: true }, &rewards) {
        Err(Failure::PubkeyMalformed(text)) => assert_eq!(text, "bad"),
        other => panic!("{other:?}"),
    }
}

#[test]
fn known_rewards_are_given_at_once() {
    let mut process = InflationProcess::new(5, stored(vec![], None));
    assert!(matches!(process.begin(&slots()), InflationStep::Done));
    match process.reply() {
        Reply::Success(Payload::Rewards(rewards)) => assert_eq!(rewards, vec![None; 4]),
        other => panic!("{other:?}"),
    }
}

#[test]
fn the_first_block_of_the_next_epoch_is_looked_for() {
    let mut process = InflationProcess::new(1, stored(vec![0], None));
    assert!(matches!(
        process.begin(&slots()),
        InflationStep::Blocks { start_slot: 864_000, limit: 1 }
    ));
    assert!(matches!(
        process.on_first_block(&vec![864_003]),
        InflationStep::Block { slot: 864_003 }
    ));
    assert_eq!(process.phase, InflationPhase::Boundary { slot: 864_003 });

    let mut process = InflationProcess::new(1, stored(vec![0], None));
    process.begin(&slots());
    assert!(matches!(
        process.on_first_block(&vec![]),
        InflationStep::Reply(Reply::Custom(RpcCustomError::BlockNotAvailable { slot: 864_000 }))
    ));

    let mut process = InflationProcess::new(9, stored(vec![0], None));
    assert!(matches!(
        process.begin(&slots()),
        InflationStep::Reply(Reply::Custom(RpcCustomError::BlockNotAvailable { slot: 4_320_000 }))
    ));
    let mut process = InflationProcess::new(u64::MAX, stored(vec![0], None));
    assert!(matches!(
        process.begin(&slots()),
        InflationStep::Reply(Reply::Custom(RpcCustomError::BlockNotAvailable { slot: u64::MAX }))
    ));
}

#[test]
fn unpartitioned_rewards_come_from_the_first_block() {
    let mut process = InflationProcess::new(1, stored(vec![0, 2], None));
    process.begin(&slots());
    process.on_first_block(&vec![864_003]);
    let block = RewardsBlock {
        previous_blockhash: solana_hash::Hash::new_from_array([8; 32]).to_string(),
        block_height: Some(1),
        num_reward_partitions: None,
        rewards: Some(vec![reward(1, 10, Some(RewardType::Staking))]),
    };
    let hash = InflationProcess::boundary_hash(&block).unwrap();
    assert_eq!(hash.bytes, [8u8; 32]);
    let (write, step) = process.on_boundary_block(block, hash).unwrap();
    match write {
        InflationWrite::Base { epoch, base, rewards } => {
            assert_eq!((epoch, base.slot, rewards.len()), (1, 864_003, 1));
            assert_eq!(base.previous_blockhash.bytes, [8u8; 32]);
        }
        other => panic!("{other:?}"),
    }
    assert!(matches!(step, InflationStep::Done));
    assert_eq!(process.missed, [2]);
    assert_eq!(process.rewards[0].unwrap().effective_slot, 864_003);
    assert_eq!(process.rewards[2], None);
}

#[test]
fn partitioned_rewards_are_looked_for_behind_the_first_block() {
    let mut process = InflationProcess::new(1, stored(vec![0, 1], None));
    process.begin(&slots());
    process.on_first_block(&vec![864_003]);
    let block = RewardsBlock {
        previous_blockhash: String::new(),
        block_height: Some(1),
        num_reward_partitions: Some(2),
        rewards: Some(vec![
            reward(1, 10, Some(RewardType::Voting)),
            reward(2, 10, Some(RewardType::Staking)),
        ]),
    };
    let (_, step) =
        process.on_boundary_block(block, Blockhash { bytes: [0; 32] }).unwrap();
    assert!(matches!(step, InflationStep::Blocks { start_slot: 864_004, limit: 2 }));
    assert_eq!(process.missed, [1]);
    assert_eq!(process.phase, InflationPhase::PartitionList);
}

#[test]
fn a_first_block_without_missing_rewards_is_enough() {
    let mut process = InflationProcess::new(1, stored(vec![0], None));
    process.begin(&slots());
    process.on_first_block(&vec![864_003]);
    let list = vec![(
        key(1),
        RpcInflationReward {
            epoch: 1,
            effective_slot: 2,
            amount: 3,
            post_balance: 4,
            commission: None,
            commission_bps: None,
        },
    )];
    let (_, step) =
        process.accept_boundary(None, Blockhash { bytes: [0; 32] }, Some(2), list);
    assert!(matches!(step, InflationStep::Done));
    assert_eq!(process.rewards[0].unwrap().amount, 3);
}

#[test]
fn malformed_hashes_and_addresses_are_told() {
    let block = RewardsBlock {
        previous_blockhash: "bad".to_string(),
        block_height: None,
        num_reward_partitions: None,
        rewards: Some(vec![Reward {
            pubkey: "bad".to_string(),
            ..reward(1, 1, Some(RewardType::Voting))
        }]),
    };
    assert_eq!(InflationProcess::boundary_hash(&block).unwrap_err(), ParseError::WrongSize);
    let mut process = InflationProcess::new(1, stored(vec![0], None));
    process.begin(&slots());
    process.on_first_block(&vec![5]);
    assert!(matches!(
        process.on_boundary_block(block, Blockhash { bytes: [0; 32] }),
        Err(Failure::PubkeyMalformed(_))
    ));
}

#[test]
fn addresses_are_assigned_to_partitions() {
    let mut process = InflationProcess::new(1, stored(vec![0, 1, 3], Some(base(Some(4)))));
    assert!(matches!(
        process.begin(&slots()),
        InflationStep::Blocks { start_slot: 864_001, limit: 4 }
    ));
    let expected: Vec<usize> = [1u8, 2, 4]
        .iter()
        .map(|byte| {
            solana_epoch_rewards_hasher::EpochRewardsHasher::new(
                4,
                &solana_hash::Hash::new_from_array([8; 32]),
            )
            .hash_address_to_partition(&solana_pubkey::Pubkey::from([*byte; 32]))
        })
        .collect();
    assert_eq!(process.partitions(), expected);
    assert!(expected.iter().all(|partition| *partition < 4));
}

#[test]
fn partitions_are_fetched_one_by_one() {
    let mut process = InflationProcess::new(1, stored(vec![0, 1, 3], Some(base(Some(4)))));
    process.begin(&slots());
    let step = process.on_partition_list(vec![11, 12, 13, 14], vec![2, 0, 2]);
    assert!(matches!(step, InflationStep::Block { slot: 13 }));
    let block = RewardsBlock {
        previous_blockhash: String::new(),
        block_height: None,
        num_reward_partitions: None,
        rewards: Some(vec![
            reward(1, 10, Some(RewardType::Staking)),
            reward(2, 20, Some(RewardType::Staking)),
            reward(4, 40, Some(RewardType::DeactivatedStake)),
        ]),
    };
    let (write, step) = process.on_partition_block(&block).unwrap();
    assert!(matches!(write, InflationWrite::Partition { epoch: 1, partition: 2, .. }));
    assert!(matches!(step, InflationStep::Block { slot: 11 }));
    assert_eq!(process.rewards[0].unwrap().amount, 10);
    assert_eq!(process.rewards[1], None);
    assert_eq!(process.rewards[3].unwrap().amount, 40);
    let (write, step) = process.accept_partition(vec![]);
    assert!(matches!(write, InflationWrite::Partition { partition: 0, .. }));
    assert!(matches!(step, InflationStep::Done));
    assert_eq!(process.phase, InflationPhase::Done);
}

#[test]
fn a_short_list_means_that_rewards_are_still_paid() {
    let mut process = InflationProcess::new(1, stored(vec![0], Some(base(Some(4)))));
    process.begin(&slots());
    let step = process.on_partition_list(vec![11], vec![1]);
    assert!(matches!(
        step,
        InflationStep::BlockHeight { rewards_complete_block_height: 800_005 }
    ));
    let high = InflationRewardBaseValue { block_height: Some(u64::MAX), ..base(Some(4)) };
    let mut process = InflationProcess::new(1, stored(vec![0], Some(high)));
    process.begin(&slots());
    assert!(matches!(
        process.on_partition_list(vec![], vec![0]),
        InflationStep::BlockHeight { rewards_complete_block_height: u64::MAX }
    ));
}

#[test]
fn unpartitioned_epochs_have_nothing_more() {
    let mut process = InflationProcess::new(1, stored(vec![0], Some(base(None))));
    assert!(matches!(process.begin(&slots()), InflationStep::Done));
}

#[test]
fn the_period_is_told_with_the_height() {
    let height = ReadResultBlockHeight { block_height: 5, slot: 6 };
    assert!(matches!(
        error_epoch_rewards_period_active(7, Read::Value(height)),
        Action::Reply(Reply::Custom(RpcCustomError::EpochRewardsPeriodActive {
            slot: 6,
            current_block_height: 5,
            rewards_complete_block_height: 7
        }))
    ));
    assert!(matches!(
        error_epoch_rewards_period_active(7, Read::Timeout),
        Action::Fail(Failure::Timeout)
    ));
}

#[test]
fn lists_come_from_the_storage_or_upstream() {
    let with = state(vec![ConfigRpcCallJson::GetBlocksWithLimit]);
    assert!(matches!(
        get_blocks_with_limit(&with, &slots(), false, 249, 3),
        Action::Upstream {
            index: 0,
            call: UpstreamCall::BlocksParsed { start_slot: 249, limit: 3 },
            reason: Reason::BelowRetention
        }
    ));
    for action in [
        get_blocks_with_limit(&with, &slots(), false, 250, 3),
        get_blocks_with_limit(&with, &slots(), true, 250, 3),
    ] {
        match action {
            Action::Read(ReadRequest::Blocks { start_slot, until, commitment }) => {
                assert_eq!(start_slot, 250);
                assert_eq!(until, RpcRequestBlocksUntil::Limit(3));
                assert_eq!(commitment, Commitment::Confirmed);
            }
            other => panic!("{other:?}"),
        }
    }
    assert_eq!(
        blocks_from_storage(&slots(), 5, Read::Value(ReadResultBlocks::Blocks(vec![1])))
            .unwrap()
            .unwrap(),
        [1]
    );
    assert!(matches!(
        blocks_from_storage(&slots(), 5, Read::Value(ReadResultBlocks::Removed)),
        Ok(Err(Reply::Custom(RpcCustomError::BlockCleanedUp {
            slot: 5,
            first_available_block: 100
        })))
    ));
    assert!(blocks_from_storage(&slots(), 5, Read::Lost).is_err());
    assert_eq!(blocks_from_upstream(Ok(Ok(vec![2]))).unwrap().unwrap(), [2]);
    assert!(matches!(blocks_from_upstream(Ok(Err(vec![3]))), Ok(Err(Reply::Forward(_)))));
    assert!(matches!(blocks_from_upstream(Err("x".to_string())), Err(Failure::Upstream(_))));
}

#[test]
fn reward_blocks_come_from_the_storage_or_upstream() {
    let with = state(vec![ConfigRpcCallJson::GetBlock]);
    assert!(matches!(
        get_block_with_rewards(&with, &slots(), false, 100),
        Action::Upstream {
            call: UpstreamCall::BlockRewards { slot: 100 },
            reason: Reason::BelowRetention,
            ..
        }
    ));
    assert!(matches!(
        get_block_with_rewards(&with, &slots(), true, 100),
        Action::Reply(Reply::Custom(RpcCustomError::LongTermStorageSlotSkipped { slot: 100 }))
    ));
    assert!(matches!(
        get_block_with_rewards(&with, &slots(), false, 101),
        Action::Read(ReadRequest::Block { slot: 101 })
    ));
    let read = |result| block_from_storage(&with, &slots(), false, 101, Read::Value(result));
    match read(ReadResultBlock::Block(vec![1])) {
        Action::Encode(WorkRequest::Block(work)) => {
            assert_eq!(work.encoding, UiTransactionEncoding::Base58);
            assert_eq!(work.encoding_options.transaction_details, TransactionDetails::Omitted);
            assert!(work.encoding_options.show_rewards);
        }
        other => panic!("{other:?}"),
    }
    assert!(matches!(
        read(ReadResultBlock::Removed),
        Action::Upstream { reason: Reason::Removed, .. }
    ));
    assert!(matches!(
        read(ReadResultBlock::Dead),
        Action::Reply(Reply::Custom(RpcCustomError::SlotSkipped { slot: 101 }))
    ));
    assert!(matches!(
        read(ReadResultBlock::NotAvailable),
        Action::Reply(Reply::Custom(RpcCustomError::BlockNotAvailable { slot: 101 }))
    ));
    let moved = StoredSlots { first_available: 101, ..slots() };
    assert!(matches!(
        block_from_storage(&with, &moved, false, 101, Read::Value(ReadResultBlock::Block(vec![]))),
        Action::Upstream { reason: Reason::BelowRetention, .. }
    ));
    assert!(matches!(
        block_from_upstream(5, Ok(Ok(None))),
        Ok(Err(Reply::Custom(RpcCustomError::BlockNotAvailable { slot: 5 })))
    ));
    assert!(matches!(block_from_upstream(5, Ok(Err(vec![1]))), Ok(Err(Reply::Forward(_)))));
    assert!(matches!(block_from_upstream(5, Err(String::new())), Err(Failure::Upstream(_))));
}

#[test]
fn a_first_block_out_of_range_is_taken_where_nothing_follows() {
    let block = |last| RewardsBlock {
        previous_blockhash: String::new(),
        block_height: Some(1),
        num_reward_partitions: Some(2),
        rewards: Some(vec![reward(last, 10, Some(RewardType::Voting))]),
    };
    let hash = Blockhash { bytes: [0; 32] };
    let process = || {
        let mut process = InflationProcess::new(1, stored(vec![0], None));
        process.begin(&slots());
        process.on_first_block(&vec![u64::MAX]);
        process
    };

    let mut found = process();
    let (_, step) = found.try_boundary_block(block(1), hash).unwrap().unwrap();
    assert!(matches!(step, InflationStep::Done));
    assert_eq!(found.rewards[0].unwrap().effective_slot, u64::MAX);

    let mut missing = process();
    assert!(missing.try_boundary_block(block(2), hash).is_none());
    assert_eq!(missing.phase, InflationPhase::Boundary { slot: u64::MAX });
    assert_eq!(missing.missed, [0]);

    let mut malformed = process();
    let rewards = vec![Reward {
        pubkey: "bad".to_string(),
        ..reward(1, 1, Some(RewardType::Voting))
    }];
    let bad = RewardsBlock { rewards: Some(rewards), ..block(1) };
    assert!(matches!(
        malformed.try_boundary_block(bad, hash),
        Some(Err(Failure::PubkeyMalformed(_)))
    ));
}

#[test]
fn the_height_is_asked_for_with_the_commitment() {
    let request = RpcRequestInflationReward {
        upstream_disabled: false,
        commitment: Commitment::Confirmed,
        epoch: 1,
        addresses: vec![],
    };
    assert!(matches!(
        get_block_height(&request),
        Action::Read(ReadRequest::BlockHeight { commitment: Commitment::Confirmed })
    ));
}

#[test]
fn the_first_block_is_taken_with_its_hash() {
    let process = |slot| {
        let mut process = InflationProcess::new(1, stored(vec![0, 1], None));
        process.begin(&slots());
        process.on_first_block(&vec![slot]);
        process
    };
    let block = |hash: String| RewardsBlock {
        previous_blockhash: hash,
        block_height: Some(5),
        num_reward_partitions: Some(2),
        rewards: Some(vec![reward(1, 10, Some(RewardType::Voting))]),
    };
    let hash = || solana_hash::Hash::new_from_array([8; 32]).to_string();

    let mut taken = process(864_003);
    let (write, step) = taken.on_boundary(block(hash())).unwrap().unwrap();
    match write {
        InflationWrite::Base { base, .. } => {
            assert_eq!(base.previous_blockhash.bytes, [8u8; 32]);
            assert_eq!(base.slot, 864_003);
        }
        other => panic!("{other:?}"),
    }
    assert!(matches!(step, InflationStep::Blocks { start_slot: 864_004, limit: 2 }));
    assert_eq!(taken.missed, [1]);

    let mut malformed = process(864_003);
    assert!(malformed.on_boundary(block("bad".to_string())).is_none());
    assert_eq!(malformed.phase, InflationPhase::Boundary { slot: 864_003 });
    assert_eq!(malformed.missed, [0, 1]);

    let mut out_of_range = process(u64::MAX);
    assert!(out_of_range.on_boundary(block(hash())).is_none());
}

#[test]
fn partition_blocks_are_taken_with_their_partitions() {
    let process = |block_height| {
        let known = InflationRewardBaseValue { block_height, ..base(Some(4)) };
        let mut process = InflationProcess::new(1, stored(vec![0, 1, 3], Some(known)));
        process.begin(&slots());
        process
    };
    let mut taken = process(None);
    let partitions = taken.partitions();
    let step = taken.on_partition_blocks(vec![11, 12, 13, 14]).unwrap();
    let first = [11u64, 12, 13, 14][partitions[0]];
    assert!(matches!(step, InflationStep::Block { slot } if slot == first));
    assert_eq!(taken.groups[0].partition, partitions[0]);
    let mut places: Vec<usize> =
        taken.groups.iter().flat_map(|group| group.places.clone()).collect();
    places.sort();
    assert_eq!(places, [0, 1, 3]);
    for group in &taken.groups {
        for place in &group.places {
            let k = [0usize, 1, 3].iter().position(|missed| missed == place).unwrap();
            assert_eq!(partitions[k], group.partition);
        }
    }

    let mut unknown = process(None);
    assert!(unknown.on_partition_blocks(vec![]).is_none());
    assert_eq!(unknown.phase, InflationPhase::PartitionList);
    let mut known = process(Some(7));
    assert!(matches!(
        known.on_partition_blocks(vec![]),
        Some(InflationStep::BlockHeight { rewards_complete_block_height: 12 })
    ));
}
