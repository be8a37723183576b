//! Laws of `getInflationReward`.

use crate::rpc::action::{
    Action, Failure, Read, ReadRequest, ReadResultBlock, ReadResultBlockHeight, ReadResultBlocks,
    Reason, RpcRequestBlocksUntil, UpstreamCall, WorkRequest,
};
use crate::rpc::inflation::fetch::{self, UpstreamAnswer};
use crate::rpc::inflation::process::{
    self, InflationPhase, InflationProcess, InflationStep, InflationWrite,
    ReadRequestResultInflationReward,
};
use crate::rpc::inflation::request::{RpcEpochConfig, RpcRequestInflationReward};
use crate::rpc::inflation::rewards::{self, Reward, RewardFilter, RewardType, RewardsBlock};
use crate::rpc::jsonrpc::{Payload, Reply, RpcCustomError, RpcInflationReward};
use crate::rpc::keys::{self, Blockhash, Pubkey};
use crate::rpc::laws::signatures::malformed;
use crate::rpc::laws::{behind, first_node, given, lemma_node, newest, no_node};
use crate::rpc::state::{Commitment, ConfigRpcCallJson, State, StoredSlots};
use vstd::prelude::*;

verus! {

// ------------------------------------------------------- the parameters

/// Rewards are asked for the addresses that the client gives, in their order,
/// and for the epoch that it gives, or the one before that of the newest slot.
/// A request is refused exactly where an address is malformed, or where it
/// names no epoch and this node has not reached the slot that it asks for.
pub proof fn law_rewards_request_keeps_what_is_given(
    slots: StoredSlots,
    upstream_disabled: bool,
    texts: Vec<String>,
    config: RpcEpochConfig,
    r: Result<RpcRequestInflationReward, Reply>,
)
    requires
        call_ensures(
            RpcRequestInflationReward::parse,
            (&slots, upstream_disabled, &texts, config),
            r,
        ),
    ensures
        ({
            let all_read = forall|i: int|
                0 <= i < texts@.len() ==> keys::pubkey_of((#[trigger] texts@[i])@) is Ok;
            let commitment = given(config.commitment, Commitment::Finalized);
            let reached = config.epoch is Some || !behind(
                config.min_context_slot,
                commitment,
                slots,
            );
            &&& r is Ok <==> all_read && reached
            &&& !all_read ==> exists|i: int|
                0 <= i < texts@.len() && keys::pubkey_of((#[trigger] texts@[i])@) is Err && r->Err_0
                    == malformed(keys::pubkey_of(texts@[i]@)->Err_0)
            &&& all_read && !reached ==> r->Err_0 == Reply::Custom(
                RpcCustomError::MinContextSlotNotReached {
                    context_slot: newest(slots, commitment),
                },
            )
            &&& r matches Ok(request) ==> {
                &&& request.upstream_disabled == upstream_disabled
                &&& request.commitment == commitment
                &&& config.epoch is Some ==> request.epoch == config.epoch->0
                &&& config.epoch is None ==> {
                    let current = newest(slots, commitment) / 432_000;
                    &&& current == 0 ==> request.epoch == 0
                    &&& current > 0 ==> request.epoch + 1 == current
                }
                &&& request.addresses@.len() == texts@.len()
                &&& forall|i: int|
                    0 <= i < texts@.len() ==> keys::pubkey_of((#[trigger] texts@[i])@)->Ok_0
                        == request.addresses@[i]
            }
        }),
{
    keys::law_pubkeys_are_read_one_by_one(texts@);
}

/// The storage is asked for the rewards of the addresses in the epoch of the
/// request, and for the height of the newest block with its commitment.
pub proof fn law_rewards_are_asked_of_the_storage(
    request: RpcRequestInflationReward,
    rewards: Action,
    height: Action,
)
    requires
        call_ensures(RpcRequestInflationReward::start, (request,), rewards),
        call_ensures(fetch::get_block_height, (&request,), height),
    ensures
        rewards matches Action::Read(ReadRequest::InflationReward { epoch, addresses }) && epoch
            == request.epoch && addresses == request.addresses,
        height matches Action::Read(ReadRequest::BlockHeight { commitment }) && commitment
            == request.commitment,
{
}

// ------------------------------------------------------- rewards of a block

/// Whether a reward of the first block of an epoch counts: rewards of votes
/// do, and rewards of stakes where they are not paid in partitions.
pub open spec fn counts_in_first(reward: Reward, partitioned: bool) -> bool {
    ||| reward.reward_type == Some(RewardType::Voting)
    ||| reward.reward_type == Some(RewardType::Staking) && !partitioned
}

/// Whether a reward of a block that pays a partition counts: rewards of stakes
/// do, of those that are active and of those that are not any more.
pub open spec fn counts_in_partition(reward: Reward) -> bool {
    ||| reward.reward_type == Some(RewardType::Staking)
    ||| reward.reward_type == Some(RewardType::DeactivatedStake)
}

/// Whether the address of a reward is `address`.
pub open spec fn is_for(reward: Reward, address: Pubkey) -> bool {
    keys::pubkey_of(reward.pubkey@) is Ok && keys::pubkey_of(reward.pubkey@)->Ok_0 == address
}

/// Whether `r` tells a client of a reward that a block of a slot pays for an
/// epoch.
pub open spec fn tells(r: RpcInflationReward, reward: Reward, epoch: u64, slot: u64) -> bool {
    &&& r.epoch == epoch
    &&& r.effective_slot == slot
    &&& reward.lamports >= 0 ==> r.amount == reward.lamports
    &&& reward.lamports < 0 ==> r.amount == -reward.lamports
    &&& r.post_balance == reward.post_balance
    &&& r.commission == reward.commission
    &&& r.commission_bps == reward.commission_bps
}

/// The rewards that a block holds.
pub open spec fn held(block: RewardsBlock) -> Seq<Reward> {
    if block.rewards is Some {
        block.rewards->0@
    } else {
        Seq::empty()
    }
}

/// Whether the `k`th reward of a block counts, in the first block of an epoch
/// or in one that pays a partition.
pub open spec fn counts(block: RewardsBlock, first: bool, k: int) -> bool {
    if first {
        counts_in_first(held(block)[k], block.num_reward_partitions is Some)
    } else {
        counts_in_partition(held(block)[k])
    }
}

/// Whether the `k`th reward of a block counts and is for an address.
pub open spec fn pays(block: RewardsBlock, first: bool, address: Pubkey, k: int) -> bool {
    &&& 0 <= k < held(block).len()
    &&& counts(block, first, k)
    &&& is_for(held(block)[k], address)
}

/// Whether the `k`th reward of a block is the last one that it pays to an
/// address.
pub open spec fn pays_last(block: RewardsBlock, first: bool, address: Pubkey, k: int) -> bool {
    &&& pays(block, first, address, k)
    &&& forall|j: int| k < j < held(block).len() ==> !#[trigger] pays(block, first, address, j)
}

/// Whether a place that is looked for is filled from a block: with the last
/// reward that the block pays to its address, or left as it is.
pub open spec fn place_filled(
    block: RewardsBlock,
    first: bool,
    epoch: u64,
    slot: u64,
    address: Pubkey,
    before: Option<RpcInflationReward>,
    after: Option<RpcInflationReward>,
) -> bool {
    ||| exists|k: int|
        #[trigger] pays_last(block, first, address, k) && after is Some && tells(
            after->0,
            held(block)[k],
            epoch,
            slot,
        )
    ||| after == before && forall|k: int|
        0 <= k < held(block).len() ==> !#[trigger] pays(block, first, address, k)
}

/// Whether a reward of a list is one that a block pays.
pub open spec fn entry_of_block(
    entry: (Pubkey, RpcInflationReward),
    block: RewardsBlock,
    first: bool,
    epoch: u64,
    slot: u64,
) -> bool {
    exists|k: int|
        #[trigger] pays(block, first, entry.0, k) && tells(entry.1, held(block)[k], epoch, slot)
}

/// Whether a list holds a reward.
pub open spec fn list_tells(list: Seq<(Pubkey, RpcInflationReward)>, reward: Reward, epoch: u64, slot: u64) -> bool {
    exists|m: int|
        0 <= m < list.len() && is_for(reward, (#[trigger] list[m]).0) && tells(
            list[m].1,
            reward,
            epoch,
            slot,
        )
}

/// Whether a list is what the storage is to keep of a block: all rewards that
/// count, as a client is told of them, and no others.
pub open spec fn list_of_block(
    list: Seq<(Pubkey, RpcInflationReward)>,
    block: RewardsBlock,
    first: bool,
    epoch: u64,
    slot: u64,
) -> bool {
    &&& forall|m: int|
        0 <= m < list.len() ==> entry_of_block(#[trigger] list[m], block, first, epoch, slot)
    &&& forall|k: int|
        0 <= k < held(block).len() && #[trigger] counts(block, first, k) ==> list_tells(
            list,
            held(block)[k],
            epoch,
            slot,
        )
}

/// Whether all rewards of a block that count have an address.
pub open spec fn well_addressed(block: RewardsBlock, first: bool) -> bool {
    forall|k: int|
        0 <= k < held(block).len() && #[trigger] counts(block, first, k) ==> keys::pubkey_of(
            held(block)[k].pubkey@,
        ) is Ok
}

/// The filter by which rewards of a block are collected.
spec fn filter_for(block: RewardsBlock, first: bool) -> RewardFilter {
    if first {
        RewardFilter::Boundary { partitioned: block.num_reward_partitions is Some }
    } else {
        RewardFilter::Partition
    }
}

/// What is collected of a block.
spec fn collected_of(block: RewardsBlock, first: bool, epoch: u64, slot: u64) -> Result<
    Seq<(Pubkey, RpcInflationReward)>,
    int,
> {
    let all = rewards::rewards_or_none(block.rewards);
    rewards::collected(
        epoch,
        slot,
        filter_for(block, first),
        all,
        rewards::addresses_of(all),
        all.len(),
    )
}

/// What is collected of a block are the rewards that count.
#[verifier::spinoff_prover]
proof fn lemma_collected_of(
    block: RewardsBlock,
    first: bool,
    epoch: u64,
    slot: u64,
    list: Seq<(Pubkey, RpcInflationReward)>,
)
    requires
        collected_of(block, first, epoch, slot) == Ok::<Seq<(Pubkey, RpcInflationReward)>, int>(
            list,
        ),
    ensures
        list_of_block(list, block, first, epoch, slot),
        well_addressed(block, first),
{
    let all = held(block);
    let filter = filter_for(block, first);
    let addresses = rewards::addresses_of(all);
    assert forall|k: int| 0 <= k < all.len() implies (#[trigger] counts(block, first, k)
        <==> filter.admits(all[k].reward_type)) by {}
    rewards::lemma_collected_or_malformed(epoch, slot, filter, all, addresses, all.len());
    assert forall|m: int| 0 <= m < list.len() implies entry_of_block(
        #[trigger] list[m],
        block,
        first,
        epoch,
        slot,
    ) by {
        let k = rewards::lemma_collected_source(epoch, slot, filter, all, addresses, all.len(), m);
        assert(addresses[k] == Some(list[m].0));
        assert(counts(block, first, k));
        assert(pays(block, first, list[m].0, k));
    }
    assert forall|k: int| 0 <= k < all.len() && #[trigger] counts(block, first, k) implies list_tells(
        list,
        all[k],
        epoch,
        slot,
    ) by {
        let m = rewards::lemma_collected_contains(epoch, slot, filter, all, addresses, all.len(), k);
        assert(is_for(all[k], list[m].0));
    }
    assert forall|k: int| 0 <= k < all.len() && #[trigger] counts(block, first, k) implies keys::pubkey_of(
        all[k].pubkey@,
    ) is Ok by {
        assert(addresses[k] is Some);
    }
}

/// A place is filled with what is collected of a block for its address.
#[verifier::spinoff_prover]
proof fn lemma_place_filled(
    block: RewardsBlock,
    first: bool,
    epoch: u64,
    slot: u64,
    list: Seq<(Pubkey, RpcInflationReward)>,
    address: Pubkey,
    before: Option<RpcInflationReward>,
)
    requires
        collected_of(block, first, epoch, slot) == Ok::<Seq<(Pubkey, RpcInflationReward)>, int>(
            list,
        ),
    ensures
        rewards::reward_for(list, address) is Some ==> place_filled(
            block,
            first,
            epoch,
            slot,
            address,
            before,
            rewards::reward_for(list, address),
        ),
        rewards::reward_for(list, address) is None ==> place_filled(
            block,
            first,
            epoch,
            slot,
            address,
            before,
            before,
        ),
        rewards::reward_for(list, address) is Some <==> exists|k: int|
            #[trigger] pays(block, first, address, k),
{
    let all = held(block);
    let filter = filter_for(block, first);
    let addresses = rewards::addresses_of(all);
    assert forall|k: int| 0 <= k < all.len() implies (#[trigger] pays(block, first, address, k)
        <==> rewards::collected_for(filter, all, addresses, address, k)) by {}
    rewards::lemma_collected_reward(epoch, slot, filter, all, addresses, all.len(), address);
    if let Some(reward) = rewards::reward_for(list, address) {
        let k = choose|k: int|
            0 <= k < all.len() && #[trigger] rewards::collected_for(
                filter,
                all,
                addresses,
                address,
                k,
            ) && reward == rewards::inflation_reward(epoch, slot, all[k]) && forall|j: int|
                k < j < all.len() ==> !#[trigger] rewards::collected_for(
                    filter,
                    all,
                    addresses,
                    address,
                    j,
                );
        assert(pays(block, first, address, k));
        assert forall|j: int| k < j < all.len() implies !#[trigger] pays(block, first, address, j) by {
            assert(!rewards::collected_for(filter, all, addresses, address, j));
        }
        assert(pays_last(block, first, address, k));
        assert(tells(reward, all[k], epoch, slot));
    } else {
        assert forall|k: int| 0 <= k < all.len() implies !#[trigger] pays(block, first, address, k) by {
            assert(!rewards::collected_for(filter, all, addresses, address, k));
        }
    }
}

// ------------------------------------------------------- the first block of the next epoch

/// The first block that pays is looked for from the first slot of the epoch
/// behind the one that is asked for, once that slot is confirmed. Nothing is
/// looked for where the storage has all rewards, and where it knows the first
/// block the blocks behind it are, as many as there are partitions.
pub proof fn law_rewards_are_looked_for_in_the_next_epoch(
    process: &mut InflationProcess,
    slots: StoredSlots,
    step: InflationStep,
)
    requires
        old(process).wf(),
        old(process).phase is Start,
        call_ensures(InflationProcess::begin, (process, &slots), step),
    ensures
        ({
            let product = (old(process).epoch + 1) * 432_000;
            let first_slot = if product <= u64::MAX {
                product
            } else {
                u64::MAX as int
            };
            let missing = old(process).missed@.len() > 0;
            let base = old(process).base;
            &&& !missing ==> step is Done
            &&& missing && base is Some && base->0.num_reward_partitions is None ==> step is Done
            &&& missing && base is Some && base->0.num_reward_partitions is Some ==> (
            step matches InflationStep::Blocks { start_slot, limit } && start_slot == base->0.slot
                + 1 && limit == base->0.num_reward_partitions->0)
            &&& missing && base is None && slots.confirmed < first_slot ==> step
                == InflationStep::Reply(
                Reply::Custom(RpcCustomError::BlockNotAvailable { slot: first_slot as u64 }),
            )
            &&& missing && base is None && first_slot <= slots.confirmed ==> (
            step matches InflationStep::Blocks { start_slot, limit } && start_slot == first_slot
                && limit == 1)
            &&& final(process).epoch == old(process).epoch
            &&& final(process).addresses == old(process).addresses
            &&& final(process).rewards == old(process).rewards
            &&& final(process).missed == old(process).missed
            &&& final(process).base == old(process).base
        }),
{
    let epoch = old(process).epoch;
    assert(epoch == u64::MAX ==> epoch * 432_000 > u64::MAX);
}

/// The first block of the list is fetched; where the list is empty, the block
/// is told not to be available yet.
pub proof fn law_first_block_is_fetched(
    process: &mut InflationProcess,
    blocks: Vec<u64>,
    step: InflationStep,
)
    requires
        old(process).wf(),
        old(process).phase is FirstBlock,
        call_ensures(InflationProcess::on_first_block, (process, &blocks), step),
    ensures
        blocks@.len() > 0 ==> step == (InflationStep::Block { slot: blocks@[0] })
            && final(process).phase == (InflationPhase::Boundary { slot: blocks@[0] }),
        blocks@.len() == 0 ==> step == InflationStep::Reply(
            Reply::Custom(
                RpcCustomError::BlockNotAvailable {
                    slot: old(process).phase->FirstBlock_first_slot,
                },
            ),
        ),
        final(process).epoch == old(process).epoch,
        final(process).addresses == old(process).addresses,
        final(process).rewards == old(process).rewards,
        final(process).missed == old(process).missed,
{
}

/// What comes of the first block that pays.
#[verifier::spinoff_prover]
proof fn lemma_boundary(
    before: InflationProcess,
    block: RewardsBlock,
    previous_blockhash: Blockhash,
    after: InflationProcess,
    r: Result<(InflationWrite, InflationStep), Failure>,
)
    requires
        before.wf(),
        before.phase is Boundary,
        before.boundary_taken(block, previous_blockhash, after, r),
    ensures
        first_block_taken(before, block, previous_blockhash, after, r),
{
    let slot = before.phase->Boundary_slot;
    let epoch = before.epoch;
    let all = held(block);
    assert(before.boundary_rewards(block) == collected_of(block, true, epoch, slot));
    let filter = filter_for(block, true);
    let addresses = rewards::addresses_of(all);
    assert forall|k: int| 0 <= k < all.len() implies (#[trigger] counts(block, true, k)
        <==> filter.admits(all[k].reward_type)) by {}
    rewards::lemma_collected_or_malformed(epoch, slot, filter, all, addresses, all.len());
    match before.boundary_rewards(block) {
        Err(i) => {
            assert(counts(block, true, i));
            assert(addresses[i] is None);
            assert(first_malformed(block, true, i)) by {
                assert forall|k: int| 0 <= k < i && #[trigger] counts(block, true, k) implies keys::pubkey_of(
                    all[k].pubkey@,
                ) is Ok by {
                    assert(addresses[k] is Some);
                }
            }
        },
        Ok(list) => {
            lemma_collected_of(block, true, epoch, slot, list);
            assert forall|p: usize| p < before.addresses@.len() implies #[trigger] place_taken(
                before,
                after,
                block,
                true,
                slot,
                before.missed@,
                p,
            ) by {
                lemma_place_filled(
                    block,
                    true,
                    epoch,
                    slot,
                    list,
                    before.addresses@[p as int],
                    before.rewards@[p as int],
                );
                assert(after.rewards@[p as int] == rewards::filled(
                    before.rewards@,
                    before.addresses@,
                    before.missed@,
                    list,
                )[p as int]);
            }
            assert forall|p: usize| p < before.addresses@.len() implies (
            #[trigger] after.missed@.contains(p) <==> before.missed@.contains(p) && !paid(
                block,
                true,
                before.addresses@[p as int],
            )) by {
                rewards::law_missed_places_have_no_reward(
                    before.addresses@,
                    before.missed@,
                    list,
                    p,
                );
                lemma_place_filled(
                    block,
                    true,
                    epoch,
                    slot,
                    list,
                    before.addresses@[p as int],
                    before.rewards@[p as int],
                );
            }
        },
    }
}

/// Whether a block pays an address.
pub open spec fn paid(block: RewardsBlock, first: bool, address: Pubkey) -> bool {
    exists|k: int| #[trigger] pays(block, first, address, k)
}

/// Whether a place is as it should be behind a block: filled where it is
/// looked for, and as it was where it is not.
pub open spec fn place_taken(
    before: InflationProcess,
    after: InflationProcess,
    block: RewardsBlock,
    first: bool,
    slot: u64,
    places: Seq<usize>,
    p: usize,
) -> bool {
    &&& places.contains(p) ==> place_filled(
        block,
        first,
        before.epoch,
        slot,
        before.addresses@[p as int],
        before.rewards@[p as int],
        after.rewards@[p as int],
    )
    &&& !places.contains(p) ==> after.rewards@[p as int] == before.rewards@[p as int]
}

/// Whether the `i`th reward of a block is the first one that counts and whose
/// address is malformed.
pub open spec fn first_malformed(block: RewardsBlock, first: bool, i: int) -> bool {
    &&& 0 <= i < held(block).len()
    &&& counts(block, first, i)
    &&& keys::pubkey_of(held(block)[i].pubkey@) is Err
    &&& forall|k: int|
        0 <= k < i && #[trigger] counts(block, first, k) ==> keys::pubkey_of(
            held(block)[k].pubkey@,
        ) is Ok
}

/// Whether `after` and `r` are what should come of the first block that pays.
/// Every place that is looked for is filled with what the block pays to its
/// address for the epoch that is asked for, the others stay, and the places
/// that the block does not pay stay missed. The storage keeps all that the
/// block pays, under that epoch. Where places stay missed the blocks behind
/// it are looked for, as many as there are partitions.
pub open spec fn first_block_taken(
    before: InflationProcess,
    block: RewardsBlock,
    previous_blockhash: Blockhash,
    after: InflationProcess,
    r: Result<(InflationWrite, InflationStep), Failure>,
) -> bool {
    let slot = before.phase->Boundary_slot;
    &&& r is Ok <==> well_addressed(block, true)
    &&& r matches Err(failure) ==> after == before && exists|i: int|
        #[trigger] first_malformed(block, true, i) && failure == Failure::PubkeyMalformed(
            held(block)[i].pubkey,
        )
    &&& r matches Ok((write, step)) ==> {
        &&& after.epoch == before.epoch
        &&& after.addresses == before.addresses
        &&& after.rewards@.len() == before.rewards@.len()
        &&& forall|p: usize|
            p < before.addresses@.len() ==> #[trigger] place_taken(
                before,
                after,
                block,
                true,
                slot,
                before.missed@,
                p,
            )
        &&& forall|p: usize|
            p < before.addresses@.len() ==> (#[trigger] after.missed@.contains(p)
                <==> before.missed@.contains(p) && !paid(block, true, before.addresses@[p as int]))
        &&& write matches InflationWrite::Base { epoch, base, rewards: list }
        &&& epoch == before.epoch
        &&& base.slot == slot
        &&& base.block_height == block.block_height
        &&& base.previous_blockhash == previous_blockhash
        &&& base.num_reward_partitions == block.num_reward_partitions
        &&& after.base == Some(base)
        &&& list_of_block(list@, block, true, before.epoch, slot)
        &&& after.missed@.len() == 0 || block.num_reward_partitions is None ==> step is Done
        &&& after.missed@.len() > 0 && block.num_reward_partitions is Some
            && block.num_reward_partitions->0 <= usize::MAX && slot < u64::MAX ==> (
        step matches InflationStep::Blocks { start_slot, limit } && start_slot == slot + 1 && limit
            == block.num_reward_partitions->0)
    }
}

/// The first block of an epoch gives each address what it pays to it, labelled
/// with the epoch that is asked for.
pub proof fn law_first_block_pays_its_rewards(
    process: &mut InflationProcess,
    block: RewardsBlock,
    previous_blockhash: Blockhash,
    r: Result<(InflationWrite, InflationStep), Failure>,
)
    requires
        old(process).wf(),
        old(process).phase is Boundary,
        call_ensures(
            InflationProcess::on_boundary_block,
            (process, block, previous_blockhash),
            r,
        ),
    ensures
        first_block_taken(*old(process), block, previous_blockhash, *final(process), r),
{
    lemma_boundary(*old(process), block, previous_blockhash, *final(process), r);
}

/// The same holds of the first block where it may be out of range, and where
/// the hash of the block before it is read first: it is that of the text that
/// the block gives.
pub proof fn law_first_block_is_taken_with_its_hash(
    process: &mut InflationProcess,
    block: RewardsBlock,
    r: Option<Result<(InflationWrite, InflationStep), Failure>>,
)
    requires
        old(process).wf(),
        old(process).phase is Boundary,
        call_ensures(InflationProcess::on_boundary, (process, block), r),
    ensures
        keys::hash_of(block.previous_blockhash@) is Err ==> r is None,
        r is None ==> *final(process) == *old(process),
        r matches Some(result) ==> first_block_taken(
            *old(process),
            block,
            keys::hash_of(block.previous_blockhash@)->Ok_0,
            *final(process),
            result,
        ),
        keys::hash_of(block.previous_blockhash@) is Ok && r is None
            ==> block.num_reward_partitions is Some && (block.num_reward_partitions->0 > usize::MAX
            || old(process).phase->Boundary_slot == u64::MAX),
{
    if let Some(result) = r {
        lemma_boundary(
            *old(process),
            block,
            keys::hash_of(block.previous_blockhash@)->Ok_0,
            *final(process),
            result,
        );
    }
}

/// The same holds of the first block where it may be out of range.
pub proof fn law_first_block_is_taken_in_range(
    process: &mut InflationProcess,
    block: RewardsBlock,
    previous_blockhash: Blockhash,
    r: Option<Result<(InflationWrite, InflationStep), Failure>>,
)
    requires
        old(process).wf(),
        old(process).phase is Boundary,
        call_ensures(
            InflationProcess::try_boundary_block,
            (process, block, previous_blockhash),
            r,
        ),
    ensures
        r is None ==> *final(process) == *old(process) && block.num_reward_partitions is Some && (
        block.num_reward_partitions->0 > usize::MAX || old(process).phase->Boundary_slot
            == u64::MAX),
        r matches Some(result) ==> first_block_taken(
            *old(process),
            block,
            previous_blockhash,
            *final(process),
            result,
        ),
{
    if let Some(result) = r {
        lemma_boundary(*old(process), block, previous_blockhash, *final(process), result);
    }
}

// ------------------------------------------------------- the blocks that pay partitions

/// What the group that is next needs: the block at the place of its partition
/// in the list, or, where the list is too short, the height at which all
/// partitions are paid. Without a group the rewards are complete.
pub open spec fn next_needed(process: InflationProcess, step: InflationStep) -> bool {
    let base = process.base->0;
    if process.next == process.groups@.len() {
        step is Done
    } else {
        let partition = process.groups@[process.next as int].partition as int;
        if partition < process.blocks@.len() {
            step == (InflationStep::Block { slot: process.blocks@[partition] }) && process.phase
                == (InflationPhase::Partition { slot: process.blocks@[partition] })
        } else {
            let height = base.block_height->0 + base.num_reward_partitions->0 + 1;
            step matches InflationStep::BlockHeight { rewards_complete_block_height }
                && rewards_complete_block_height == if height <= u64::MAX {
                height
            } else {
                u64::MAX as int
            }
        }
    }
}

/// Whether a place is in the group of its partition.
pub open spec fn grouped_right(before: InflationProcess, after: InflationProcess, g: int, p: usize) -> bool {
    &&& before.missed@.contains(p)
    &&& keys::partition_of(
        before.base->0.num_reward_partitions->0 as usize,
        before.base->0.previous_blockhash,
        before.addresses@[p as int],
    ) == after.groups@[g].partition
}

/// The places that are looked for are grouped by the partition of their
/// addresses: a group holds only places of its partition, every place is in a
/// group, and no two groups are of the same partition.
#[verifier::spinoff_prover]
pub proof fn law_places_are_grouped_by_partition(
    process: &mut InflationProcess,
    blocks: Vec<u64>,
    r: Option<InflationStep>,
)
    requires
        old(process).wf(),
        old(process).phase is PartitionList,
        call_ensures(InflationProcess::on_partition_blocks, (process, blocks), r),
    ensures
        r is None ==> *final(process) == *old(process)
            && old(process).base->0.block_height is None,
        r matches Some(step) ==> {
            let groups = final(process).groups@;
            &&& final(process).blocks == blocks
            &&& final(process).next == 0
            &&& final(process).epoch == old(process).epoch
            &&& final(process).addresses == old(process).addresses
            &&& final(process).rewards == old(process).rewards
            &&& final(process).missed == old(process).missed
            &&& final(process).base == old(process).base
            &&& next_needed(*final(process), step)
            &&& forall|g: int, p: usize|
                0 <= g < groups.len() && #[trigger] groups[g].places@.contains(p)
                    ==> grouped_right(*old(process), *final(process), g, p)
            &&& forall|g: int, h: int|
                0 <= g < h < groups.len() ==> (#[trigger] groups[g]).partition != (
                #[trigger] groups[h]).partition
            &&& forall|i: int|
                0 <= i < old(process).missed@.len() ==> in_a_group(
                    groups,
                    #[trigger] old(process).missed@[i],
                )
        },
{
    if r is Some {
        let places = old(process).missed@;
        let partitions = old(process).missed_partitions();
        let n = places.len();
        let groups = final(process).groups@;
        let views = process::group_views(groups);
        assert(views == process::grouped(places, partitions, n));
        assert forall|g: int, p: usize|
            0 <= g < groups.len() && #[trigger] groups[g].places@.contains(p) implies grouped_right(
            *old(process),
            *final(process),
            g,
            p,
        ) by {
            assert(views[g] == (groups[g].partition, groups[g].places@));
            process::law_group_holds_its_places(places, partitions, n, g);
            let k = process::lemma_place_has_its_partition(
                places,
                partitions,
                groups[g].partition,
                n,
                p,
            );
            assert(places[k] == p);
        }
        assert forall|g: int, h: int| 0 <= g < h < groups.len() implies (
        #[trigger] groups[g]).partition != (#[trigger] groups[h]).partition by {
            assert(views[g].0 == groups[g].partition);
            assert(views[h].0 == groups[h].partition);
            process::law_groups_are_distinct(places, partitions, n, g, h);
        }
        assert forall|i: int| 0 <= i < n implies in_a_group(groups, #[trigger] places[i]) by {
            let g = process::law_every_place_is_grouped(places, partitions, n, i);
            process::law_group_holds_its_places(places, partitions, n, g);
            assert(views[g] == (groups[g].partition, groups[g].places@));
            assert(groups[g].places@.contains(places[i]));
        }
    }
}

/// Whether a place is in one of the groups.
pub open spec fn in_a_group(groups: Seq<process::PartitionGroup>, p: usize) -> bool {
    exists|g: int| 0 <= g < groups.len() && #[trigger] groups[g].places@.contains(p)
}

/// The block of a partition gives each address of that partition that is
/// looked for what it pays to it, labelled with the epoch that is asked for,
/// and changes no other place. The storage keeps all that the block pays,
/// under that epoch and partition. Then the next group comes.
#[verifier::spinoff_prover]
pub proof fn law_partition_block_pays_its_rewards(
    process: &mut InflationProcess,
    block: RewardsBlock,
    r: Result<(InflationWrite, InflationStep), Failure>,
)
    requires
        old(process).wf(),
        old(process).phase is Partition,
        call_ensures(InflationProcess::on_partition_block, (process, &block), r),
    ensures
        ({
            let group = old(process).groups@[old(process).next as int];
            let slot = old(process).phase->Partition_slot;
            &&& r is Ok <==> well_addressed(block, false)
            &&& r matches Err(failure) ==> *final(process) == *old(process) && exists|i: int|
                #[trigger] first_malformed(block, false, i) && failure == Failure::PubkeyMalformed(
                    held(block)[i].pubkey,
                )
            &&& r matches Ok((write, step)) ==> {
                &&& final(process).epoch == old(process).epoch
                &&& final(process).addresses == old(process).addresses
                &&& final(process).groups == old(process).groups
                &&& final(process).blocks == old(process).blocks
                &&& final(process).base == old(process).base
                &&& final(process).next == old(process).next + 1
                &&& final(process).rewards@.len() == old(process).rewards@.len()
                &&& forall|p: usize|
                    p < old(process).addresses@.len() ==> #[trigger] place_taken(
                        *old(process),
                        *final(process),
                        block,
                        false,
                        slot,
                        group.places@,
                        p,
                    )
                &&& write matches InflationWrite::Partition { epoch, partition, rewards: list }
                &&& epoch == old(process).epoch
                &&& partition == group.partition
                &&& list_of_block(list@, block, false, old(process).epoch, slot)
                &&& next_needed(*final(process), step)
            }
        }),
{
    let before = *old(process);
    let after = *final(process);
    let group = before.groups@[before.next as int];
    let slot = before.phase->Partition_slot;
    let epoch = before.epoch;
    let all = held(block);
    let filter = filter_for(block, false);
    let addresses = rewards::addresses_of(all);
    assert forall|k: int| 0 <= k < all.len() implies (#[trigger] counts(block, false, k)
        <==> filter.admits(all[k].reward_type)) by {}
    rewards::lemma_collected_or_malformed(epoch, slot, filter, all, addresses, all.len());
    match collected_of(block, false, epoch, slot) {
        Err(i) => {
            assert(counts(block, false, i));
            assert(addresses[i] is None);
            assert(first_malformed(block, false, i)) by {
                assert forall|k: int| 0 <= k < i && #[trigger] counts(block, false, k) implies keys::pubkey_of(
                    all[k].pubkey@,
                ) is Ok by {
                    assert(addresses[k] is Some);
                }
            }
        },
        Ok(list) => {
            lemma_collected_of(block, false, epoch, slot, list);
            assert forall|p: usize| p < before.addresses@.len() implies #[trigger] place_taken(
                before,
                after,
                block,
                false,
                slot,
                group.places@,
                p,
            ) by {
                lemma_place_filled(
                    block,
                    false,
                    epoch,
                    slot,
                    list,
                    before.addresses@[p as int],
                    before.rewards@[p as int],
                );
                assert(after.rewards@[p as int] == rewards::filled(
                    before.rewards@,
                    before.addresses@,
                    group.places@,
                    list,
                )[p as int]);
            }
        },
    }
}

/// Collecting starts with what the storage has, and the rewards are replied as
/// they were collected.
pub proof fn law_collected_rewards_are_replied(
    epoch: u64,
    stored: ReadRequestResultInflationReward,
    begun: InflationProcess,
    done: InflationProcess,
    reply: Reply,
)
    requires
        call_ensures(InflationProcess::new, (epoch, stored), begun),
        call_ensures(InflationProcess::reply, (done,), reply),
    ensures
        begun.epoch == epoch,
        begun.addresses == stored.addresses,
        begun.rewards == stored.rewards,
        begun.missed == stored.missed,
        begun.base == stored.base,
        reply == Reply::Success(Payload::Rewards(done.rewards)),
{
}

/// Every reward that a block fills in, or that the storage is told to keep of
/// it, is labelled with the epoch that is asked for and the slot of the block.
pub proof fn law_rewards_are_of_the_epoch_asked_for(
    first: &mut InflationProcess,
    first_block: RewardsBlock,
    previous_blockhash: Blockhash,
    of_first: (InflationWrite, InflationStep),
    process: &mut InflationProcess,
    block: RewardsBlock,
    of_partition: (InflationWrite, InflationStep),
    i: int,
)
    requires
        old(first).wf(),
        old(first).phase is Boundary,
        call_ensures(
            InflationProcess::on_boundary_block,
            (first, first_block, previous_blockhash),
            Ok(of_first),
        ),
        old(process).wf(),
        old(process).phase is Partition,
        call_ensures(InflationProcess::on_partition_block, (process, &block), Ok(of_partition)),
    ensures
        0 <= i < old(first).rewards@.len() && final(first).rewards@[i] != old(first).rewards@[i]
            ==> (final(first).rewards@[i] matches Some(reward) && reward.epoch == old(first).epoch
            && reward.effective_slot == old(first).phase->Boundary_slot),
        of_first.0 matches InflationWrite::Base { epoch, rewards: list, .. } && epoch == old(
            first,
        ).epoch && (0 <= i < list@.len() ==> list@[i].1.epoch == old(first).epoch
            && list@[i].1.effective_slot == old(first).phase->Boundary_slot),
        0 <= i < old(process).rewards@.len() && final(process).rewards@[i] != old(
            process,
        ).rewards@[i] ==> (final(process).rewards@[i] matches Some(reward) && reward.epoch == old(
            process,
        ).epoch && reward.effective_slot == old(process).phase->Partition_slot),
        of_partition.0 matches InflationWrite::Partition { epoch, rewards: list, .. } && epoch
            == old(process).epoch && (0 <= i < list@.len() ==> list@[i].1.epoch == old(
            process,
        ).epoch && list@[i].1.effective_slot == old(process).phase->Partition_slot),
{
    assert(old(first).addresses.len() <= usize::MAX);
    assert(old(process).addresses.len() <= usize::MAX);
    law_first_block_pays_its_rewards(first, first_block, previous_blockhash, Ok(of_first));
    law_partition_block_pays_its_rewards(process, block, Ok(of_partition));
    let p = i as usize;
    if 0 <= i < old(first).rewards@.len() {
        assert(place_taken(
            *old(first),
            *final(first),
            first_block,
            true,
            old(first).phase->Boundary_slot,
            old(first).missed@,
            p,
        ));
    }
    if 0 <= i < old(process).rewards@.len() {
        assert(place_taken(
            *old(process),
            *final(process),
            block,
            false,
            old(process).phase->Partition_slot,
            old(process).groups@[old(process).next as int].places@,
            p,
        ));
    }
    if let InflationWrite::Base { rewards: list, .. } = of_first.0 {
        if 0 <= i < list@.len() {
            assert(entry_of_block(
                list@[i],
                first_block,
                true,
                old(first).epoch,
                old(first).phase->Boundary_slot,
            ));
        }
    }
    if let InflationWrite::Partition { rewards: list, .. } = of_partition.0 {
        if 0 <= i < list@.len() {
            assert(entry_of_block(
                list@[i],
                block,
                false,
                old(process).epoch,
                old(process).phase->Partition_slot,
            ));
        }
    }
}

// ------------------------------------------------------- where blocks come from

/// A list of blocks is asked of another node exactly where the storage may not
/// have the first of them, the client allows it and there is such a node.
/// Otherwise the storage is asked, for confirmed blocks.
pub proof fn law_reward_blocks_are_listed(
    state: State,
    slots: StoredSlots,
    upstream_disabled: bool,
    start_slot: u64,
    limit: usize,
    action: Action,
)
    requires
        call_ensures(
            fetch::get_blocks_with_limit,
            (&state, &slots, upstream_disabled, start_slot, limit),
            action,
        ),
    ensures
        action is Upstream <==> start_slot < slots.first_available + 150 && !upstream_disabled
            && !no_node(state, ConfigRpcCallJson::GetBlocksWithLimit),
        action matches Action::Upstream { index, call, reason } ==> {
            &&& first_node(state, ConfigRpcCallJson::GetBlocksWithLimit, index)
            &&& call == (UpstreamCall::BlocksParsed { start_slot, limit })
            &&& reason == Reason::BelowRetention
        },
        !(action is Upstream) ==> (action matches Action::Read(
            ReadRequest::Blocks { start_slot: from, until, commitment },
        ) && from == start_slot && until == RpcRequestBlocksUntil::Limit(limit)
            && commitment is Confirmed),
{
    lemma_node(state, ConfigRpcCallJson::GetBlocksWithLimit);
}

/// Whether a block is got from elsewhere: from the first node that may be
/// asked, or not at all where the client forbids it or there is none.
pub open spec fn rewards_from_elsewhere(
    state: State,
    upstream_disabled: bool,
    slot: u64,
    why: Reason,
    action: Action,
) -> bool {
    if upstream_disabled || no_node(state, ConfigRpcCallJson::GetBlock) {
        action == Action::Reply(
            Reply::Custom(RpcCustomError::LongTermStorageSlotSkipped { slot }),
        )
    } else {
        &&& action matches Action::Upstream { index, call, reason }
        &&& first_node(state, ConfigRpcCallJson::GetBlock, index)
        &&& call == (UpstreamCall::BlockRewards { slot })
        &&& reason == why
    }
}

/// A block is asked of the storage within the window that it keeps, and got
/// from elsewhere below it.
pub proof fn law_reward_block_is_looked_for(
    state: State,
    slots: StoredSlots,
    upstream_disabled: bool,
    slot: u64,
    action: Action,
)
    requires
        call_ensures(
            fetch::get_block_with_rewards,
            (&state, &slots, upstream_disabled, slot),
            action,
        ),
    ensures
        slots.first_available < slot ==> action == Action::Read(ReadRequest::Block { slot }),
        slot <= slots.first_available ==> rewards_from_elsewhere(
            state,
            upstream_disabled,
            slot,
            Reason::BelowRetention,
            action,
        ),
{
    lemma_node(state, ConfigRpcCallJson::GetBlock);
}

/// A block that the storage has within the window is decoded with its rewards
/// and without its transactions. One that it does not have any more is got
/// from elsewhere, and a slot without a block is told.
pub proof fn law_stored_reward_block_is_decoded(
    state: State,
    slots: StoredSlots,
    upstream_disabled: bool,
    slot: u64,
    read: Read<ReadResultBlock>,
    action: Action,
)
    requires
        call_ensures(
            fetch::block_from_storage,
            (&state, &slots, upstream_disabled, slot, read),
            action,
        ),
    ensures
        !(read is Value) ==> action is Fail,
        read is Value && read->Value_0 is Block && slots.first_available < slot ==> {
            &&& action matches Action::Encode(WorkRequest::Block(work))
            &&& work.slot == slot
            &&& work.bytes == read->Value_0->Block_0
            &&& work.encoding_options.show_rewards
            &&& work.encoding_options.transaction_details is Omitted
        },
        read is Value && read->Value_0 is Block && slot <= slots.first_available
            ==> rewards_from_elsewhere(
            state,
            upstream_disabled,
            slot,
            Reason::BelowRetention,
            action,
        ),
        read is Value && read->Value_0 is Removed ==> rewards_from_elsewhere(
            state,
            upstream_disabled,
            slot,
            Reason::Removed,
            action,
        ),
        read is Value && read->Value_0 is Dead ==> action == Action::Reply(
            Reply::Custom(RpcCustomError::SlotSkipped { slot }),
        ),
        read is Value && read->Value_0 is NotAvailable ==> action == Action::Reply(
            Reply::Custom(RpcCustomError::BlockNotAvailable { slot }),
        ),
{
    lemma_node(state, ConfigRpcCallJson::GetBlock);
}

/// What the storage or another node lists is taken as it is; an error of
/// another node is handed on, and the client is told where blocks were
/// removed.
pub proof fn law_listed_reward_blocks_are_taken(
    slots: StoredSlots,
    start_slot: u64,
    read: Read<ReadResultBlocks>,
    stored: Result<Result<Vec<u64>, Reply>, Failure>,
    answer: UpstreamAnswer<Vec<u64>>,
    given: Result<Result<Vec<u64>, Reply>, Failure>,
)
    requires
        call_ensures(fetch::blocks_from_storage, (&slots, start_slot, read), stored),
        call_ensures(fetch::blocks_from_upstream, (answer,), given),
    ensures
        !(read is Value) ==> stored is Err,
        read matches Read::Value(ReadResultBlocks::Blocks(blocks)) ==> stored == Ok::<
            Result<Vec<u64>, Reply>,
            Failure,
        >(Ok(blocks)),
        read is Value && read->Value_0 is Removed ==> stored == Ok::<
            Result<Vec<u64>, Reply>,
            Failure,
        >(
            Err(
                Reply::Custom(
                    RpcCustomError::BlockCleanedUp {
                        slot: start_slot,
                        first_available_block: slots.first_available,
                    },
                ),
            ),
        ),
        answer matches Ok(Ok(blocks)) ==> given == Ok::<Result<Vec<u64>, Reply>, Failure>(
            Ok(blocks),
        ),
        answer matches Ok(Err(bytes)) ==> given == Ok::<Result<Vec<u64>, Reply>, Failure>(
            Err(Reply::Forward(bytes)),
        ),
        answer matches Err(error) ==> given == Err::<Result<Vec<u64>, Reply>, Failure>(
            Failure::Upstream(error),
        ),
{
}

/// A block that another node has is taken as it is; its error is handed on,
/// and the client is told where it has none.
pub proof fn law_given_reward_block_is_taken(
    slot: u64,
    answer: UpstreamAnswer<Option<RewardsBlock>>,
    r: Result<Result<RewardsBlock, Reply>, Failure>,
)
    requires
        call_ensures(fetch::block_from_upstream, (slot, answer), r),
    ensures
        answer matches Ok(Ok(Some(block))) ==> r == Ok::<Result<RewardsBlock, Reply>, Failure>(
            Ok(block),
        ),
        answer matches Ok(Ok(None)) ==> r == Ok::<Result<RewardsBlock, Reply>, Failure>(
            Err(Reply::Custom(RpcCustomError::BlockNotAvailable { slot })),
        ),
        answer matches Ok(Err(bytes)) ==> r == Ok::<Result<RewardsBlock, Reply>, Failure>(
            Err(Reply::Forward(bytes)),
        ),
        answer matches Err(error) ==> r == Err::<Result<RewardsBlock, Reply>, Failure>(
            Failure::Upstream(error),
        ),
{
}

/// A client is told that rewards are still being paid: with the newest height
/// and its slot, and the height at which they will be complete.
pub proof fn law_active_period_is_told(
    rewards_complete_block_height: u64,
    read: Read<ReadResultBlockHeight>,
    action: Action,
)
    requires
        call_ensures(
            fetch::error_epoch_rewards_period_active,
            (rewards_complete_block_height, read),
            action,
        ),
    ensures
        !(read is Value) ==> action is Fail,
        read matches Read::Value(newest) ==> action == Action::Reply(
            Reply::Custom(
                RpcCustomError::EpochRewardsPeriodActive {
                    slot: newest.slot,
                    current_block_height: newest.block_height,
                    rewards_complete_block_height,
                },
            ),
        ),
{
}

} // verus!
