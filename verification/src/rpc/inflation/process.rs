//! How the rewards that the storage does not have are collected from blocks.
//!
//! The first block of the following epoch pays the rewards of votes, and those
//! of stakes too unless they are partitioned. Then a number of blocks behind
//! it pay the stakes, each those of the addresses of one partition.

use crate::rpc::action::Failure;
use crate::rpc::inflation::rewards::{self, RewardFilter, RewardList, RewardsBlock};
use crate::rpc::jsonrpc::{Payload, Reply, RpcCustomError, RpcInflationReward};
use crate::rpc::keys::{self, Blockhash, ParseError, Pubkey};
use crate::rpc::state::StoredSlots;
use vstd::prelude::*;

verus! {

/// What is known of the first block that pays the rewards of an epoch.
#[derive(Debug, Clone, Copy)]
pub struct InflationRewardBaseValue {
    pub slot: u64,
    pub block_height: Option<u64>,
    pub previous_blockhash: Blockhash,
    pub num_reward_partitions: Option<u64>,
}

impl InflationRewardBaseValue {
    /// Whether the number of partitions and the next slot can be represented.
    pub open spec fn in_range(self) -> bool {
        self.num_reward_partitions matches Some(n) ==> n <= usize::MAX && self.slot < u64::MAX
    }
}

/// The rewards that the storage has of addresses.
#[derive(Debug)]
pub struct ReadRequestResultInflationReward {
    pub addresses: Vec<Pubkey>,
    pub rewards: Vec<Option<RpcInflationReward>>,
    /// The places of the addresses of which the storage does not know whether
    /// there is a reward.
    pub missed: Vec<usize>,
    pub base: Option<InflationRewardBaseValue>,
}

impl ReadRequestResultInflationReward {
    /// Whether there is a place for a reward of every address, and every
    /// missed place is one of them.
    pub open spec fn wf(self) -> bool {
        &&& self.rewards@.len() == self.addresses@.len()
        &&& in_places(self.missed@, self.addresses@.len())
        &&& self.missed@.len() > 0 ==> (self.base matches Some(base) ==> base.in_range())
    }
}

/// Whether all places are below `len`.
pub open spec fn in_places(places: Seq<usize>, len: nat) -> bool {
    forall|i: int| 0 <= i < places.len() ==> places[i] < len
}

// ------------------------------------------------------- partitions

/// The places whose addresses are in the same partition.
#[derive(Debug)]
pub struct PartitionGroup {
    pub partition: usize,
    pub places: Vec<usize>,
}

/// Groups, with their places as sequences.
pub open spec fn group_views(groups: Seq<PartitionGroup>) -> Seq<(usize, Seq<usize>)> {
    Seq::new(groups.len(), |i: int| (groups[i].partition, groups[i].places@))
}

/// The first group from the `i`th on that is of a partition, or the number of
/// groups where there is none.
pub open spec fn group_at(groups: Seq<(usize, Seq<usize>)>, partition: usize, i: nat) -> nat
    decreases groups.len() - i,
{
    if i >= groups.len() || groups[i as int].0 == partition {
        i
    } else {
        group_at(groups, partition, i + 1)
    }
}

/// The groups with one more place, in the group of its partition, or in a new
/// one behind the others.
pub open spec fn with_place(
    groups: Seq<(usize, Seq<usize>)>,
    partition: usize,
    place: usize,
) -> Seq<(usize, Seq<usize>)> {
    let i = group_at(groups, partition, 0) as int;
    if i < groups.len() {
        groups.update(i, (partition, groups[i].1.push(place)))
    } else {
        groups.push((partition, seq![place]))
    }
}

/// The first `n` places, grouped by partition.
pub open spec fn grouped(places: Seq<usize>, partitions: Seq<usize>, n: nat) -> Seq<
    (usize, Seq<usize>),
>
    decreases n,
{
    if n == 0 {
        Seq::empty()
    } else {
        with_place(grouped(places, partitions, (n - 1) as nat), partitions[n - 1], places[n - 1])
    }
}

/// The places of a partition among the first `n`.
pub open spec fn places_of(
    places: Seq<usize>,
    partitions: Seq<usize>,
    partition: usize,
    n: nat,
) -> Seq<usize>
    decreases n,
{
    if n == 0 {
        Seq::empty()
    } else {
        let init = places_of(places, partitions, partition, (n - 1) as nat);
        if partitions[n - 1] == partition {
            init.push(places[n - 1])
        } else {
            init
        }
    }
}

/// A search for a group finds the first one of the partition.
proof fn lemma_group_at(groups: Seq<(usize, Seq<usize>)>, partition: usize, i: nat)
    requires
        i <= groups.len(),
    ensures
        i <= group_at(groups, partition, i) <= groups.len(),
        group_at(groups, partition, i) < groups.len() ==> groups[group_at(
            groups,
            partition,
            i,
        ) as int].0 == partition,
        forall|j: int|
            i <= j < group_at(groups, partition, i) ==> (#[trigger] groups[j]).0 != partition,
    decreases groups.len() - i,
{
    if i < groups.len() && groups[i as int].0 != partition {
        lemma_group_at(groups, partition, i + 1);
    }
}

/// No two groups are of the same partition.
pub proof fn law_groups_are_distinct(
    places: Seq<usize>,
    partitions: Seq<usize>,
    n: nat,
    i: int,
    j: int,
)
    requires
        n <= places.len(),
        n <= partitions.len(),
        0 <= i < j < grouped(places, partitions, n).len(),
    ensures
        grouped(places, partitions, n)[i].0 != grouped(places, partitions, n)[j].0,
    decreases n,
{
    let m = (n - 1) as nat;
    let before = grouped(places, partitions, m);
    lemma_group_at(before, partitions[m as int], 0);
    if j < before.len() {
        law_groups_are_distinct(places, partitions, m, i, j);
    }
}

/// A group holds the places of its partition, in their order.
#[verifier::spinoff_prover]
pub proof fn law_group_holds_its_places(
    places: Seq<usize>,
    partitions: Seq<usize>,
    n: nat,
    i: int,
)
    requires
        n <= places.len(),
        n <= partitions.len(),
        0 <= i < grouped(places, partitions, n).len(),
    ensures
        grouped(places, partitions, n)[i].1 == places_of(
            places,
            partitions,
            grouped(places, partitions, n)[i].0,
            n,
        ),
    decreases n,
{
    let m = (n - 1) as nat;
    let before = grouped(places, partitions, m);
    let partition = partitions[m as int];
    lemma_group_at(before, partition, 0);
    let at = group_at(before, partition, 0) as int;
    if i < before.len() {
        law_group_holds_its_places(places, partitions, m, i);
        if at < before.len() && i < at {
            law_groups_are_distinct(places, partitions, m, i, at);
        } else if at < before.len() && at < i {
            law_groups_are_distinct(places, partitions, m, at, i);
        }
    } else {
        lemma_no_places(places, partitions, partition, m);
        assert(places_of(places, partitions, partition, n) =~= seq![places[m as int]]);
    }
}

/// Every place is in a group: there is one of its partition.
pub proof fn law_every_place_is_grouped(
    places: Seq<usize>,
    partitions: Seq<usize>,
    n: nat,
    k: int,
) -> (i: int)
    requires
        n <= places.len(),
        n <= partitions.len(),
        0 <= k < n,
    ensures
        0 <= i < grouped(places, partitions, n).len(),
        grouped(places, partitions, n)[i].0 == partitions[k],
        places_of(places, partitions, partitions[k], n).contains(places[k]),
    decreases n,
{
    let m = (n - 1) as nat;
    let before = grouped(places, partitions, m);
    lemma_group_at(before, partitions[m as int], 0);
    let init = places_of(places, partitions, partitions[k], m);
    let all = places_of(places, partitions, partitions[k], n);
    if k < m {
        let i = law_every_place_is_grouped(places, partitions, m, k);
        let j = choose|j: int| 0 <= j < init.len() && init[j] == places[k];
        assert(all[j] == places[k]);
        i
    } else {
        assert(all[init.len() as int] == places[k]);
        group_at(before, partitions[m as int], 0) as int
    }
}

/// A partition that has no group has no places.
proof fn lemma_no_places(places: Seq<usize>, partitions: Seq<usize>, partition: usize, n: nat)
    requires
        n <= places.len(),
        n <= partitions.len(),
        ({
            let groups = grouped(places, partitions, n);
            group_at(groups, partition, 0) == groups.len()
        }),
    ensures
        places_of(places, partitions, partition, n) == Seq::<usize>::empty(),
    decreases n,
{
    if n > 0 {
        let m = (n - 1) as nat;
        let before = grouped(places, partitions, m);
        let groups = grouped(places, partitions, n);
        lemma_group_at(groups, partition, 0);
        lemma_group_at(before, partitions[m as int], 0);
        lemma_group_at(before, partition, 0);
        let at = group_at(before, partitions[m as int], 0) as int;
        assert(groups[at].0 == partitions[m as int]);
        let i = group_at(before, partition, 0) as int;
        if i < before.len() {
            assert(groups[i].0 == partition);
        }
        lemma_no_places(places, partitions, partition, m);
    }
}

/// Every place of a group is one of the places.
proof fn lemma_grouped_places(places: Seq<usize>, partitions: Seq<usize>, n: nat, len: nat)
    requires
        n <= places.len(),
        n <= partitions.len(),
        in_places(places, len),
    ensures
        forall|i: int|
            0 <= i < grouped(places, partitions, n).len() ==> in_places(
                (#[trigger] grouped(places, partitions, n)[i]).1,
                len,
            ),
    decreases n,
{
    if n > 0 {
        let m = (n - 1) as nat;
        lemma_grouped_places(places, partitions, m, len);
        lemma_group_at(grouped(places, partitions, m), partitions[m as int], 0);
    }
}

/// Every group is of a partition of one of the places.
proof fn lemma_grouped_partitions(places: Seq<usize>, partitions: Seq<usize>, n: nat, i: int) -> (k: int)
    requires
        n <= places.len(),
        n <= partitions.len(),
        0 <= i < grouped(places, partitions, n).len(),
    ensures
        0 <= k < n,
        partitions[k] == grouped(places, partitions, n)[i].0,
    decreases n,
{
    let m = (n - 1) as nat;
    let before = grouped(places, partitions, m);
    lemma_group_at(before, partitions[m as int], 0);
    if i < before.len() {
        lemma_grouped_partitions(places, partitions, m, i)
    } else {
        m as int
    }
}

/// Adds a place to the group of its partition.
fn add_place(groups: &mut Vec<PartitionGroup>, partition: usize, place: usize)
    ensures
        group_views(final(groups)@) == with_place(group_views(old(groups)@), partition, place),
{
    let ghost before = group_views(groups@);
    let mut i: usize = 0;
    while i < groups.len() && groups[i].partition != partition
        invariant
            i <= groups.len(),
            before == group_views(groups@),
            group_at(before, partition, 0) == group_at(before, partition, i as nat),
        decreases groups.len() - i,
    {
        i = i + 1;
    }
    if i < groups.len() {
        groups[i].places.push(place);
    } else {
        let mut places: Vec<usize> = Vec::new();
        places.push(place);
        groups.push(PartitionGroup { partition, places });
    }
    assert(group_views(groups@) =~= with_place(before, partition, place));
}

/// Groups places by partition.
fn group_places(places: &Vec<usize>, partitions: &Vec<usize>) -> (r: Vec<PartitionGroup>)
    requires
        places@.len() == partitions@.len(),
    ensures
        group_views(r@) == grouped(places@, partitions@, places@.len()),
{
    let mut groups: Vec<PartitionGroup> = Vec::new();
    let mut i: usize = 0;
    assert(group_views(groups@) =~= grouped(places@, partitions@, 0));
    while i < places.len()
        invariant
            i <= places.len(),
            places@.len() == partitions@.len(),
            group_views(groups@) == grouped(places@, partitions@, i as nat),
        decreases places.len() - i,
    {
        add_place(&mut groups, partitions[i], places[i]);
        i = i + 1;
    }
    groups
}

// ------------------------------------------------------- steps

/// What collecting the rewards needs next.
#[derive(Debug)]
pub enum InflationStep {
    /// A list of blocks.
    Blocks { start_slot: u64, limit: usize },
    /// The rewards of a block.
    Block { slot: u64 },
    /// The height of the newest block, to tell that rewards are still paid.
    BlockHeight { rewards_complete_block_height: u64 },
    /// Nothing: the request is answered otherwise.
    Reply(Reply),
    /// Nothing: the rewards are complete.
    Done,
}

/// What the storage is told to keep of the rewards.
#[derive(Debug)]
pub enum InflationWrite {
    Base { epoch: u64, base: InflationRewardBaseValue, rewards: RewardList },
    Partition { epoch: u64, partition: usize, rewards: RewardList },
}

/// How far the rewards are collected.
#[derive(Debug, Clone, Copy, PartialEq, Eq, Structural)]
pub enum InflationPhase {
    /// Nothing was asked for.
    Start,
    /// The first block of the next epoch is looked for.
    FirstBlock { first_slot: u64 },
    /// The first block of the next epoch is fetched.
    Boundary { slot: u64 },
    /// The blocks that pay partitions are looked for.
    PartitionList,
    /// The block that pays a partition is fetched.
    Partition { slot: u64 },
    /// The rewards are complete, or the request is answered otherwise.
    Done,
}

/// The rewards of a request, while they are collected.
#[derive(Debug)]
pub struct InflationProcess {
    pub epoch: u64,
    pub addresses: Vec<Pubkey>,
    pub rewards: Vec<Option<RpcInflationReward>>,
    pub missed: Vec<usize>,
    pub base: Option<InflationRewardBaseValue>,
    /// The blocks that pay partitions.
    pub blocks: Vec<u64>,
    pub groups: Vec<PartitionGroup>,
    /// How many groups are done.
    pub next: usize,
    pub phase: InflationPhase,
}

/// The first slot of the epoch behind an epoch.
pub open spec fn first_slot_behind(epoch: u64) -> u64 {
    keys::first_slot_of(
        if epoch == u64::MAX {
            epoch
        } else {
            (epoch + 1) as u64
        },
    )
}

/// The height at which the last of `n` partitions is paid.
pub open spec fn complete_height(block_height: u64, n: usize) -> u64 {
    let height = block_height + n + 1;
    if height <= u64::MAX {
        height as u64
    } else {
        u64::MAX
    }
}

/// What is needed once the first block is known: the blocks behind it, where
/// rewards are partitioned.
pub open spec fn step_behind(base: InflationRewardBaseValue) -> InflationStep {
    match base.num_reward_partitions {
        None => InflationStep::Done,
        Some(n) => InflationStep::Blocks {
            start_slot: (base.slot + 1) as u64,
            limit: n as usize,
        },
    }
}

/// The phase that goes with a step.
pub open spec fn phase_behind(base: InflationRewardBaseValue) -> InflationPhase {
    if base.num_reward_partitions is Some {
        InflationPhase::PartitionList
    } else {
        InflationPhase::Done
    }
}

impl InflationProcess {
    /// What holds all along: there is a place for a reward of every address,
    /// and every place that is looked for is one of them.
    pub open spec fn wf(self) -> bool {
        &&& self.rewards@.len() == self.addresses@.len()
        &&& in_places(self.missed@, self.addresses@.len())
        &&& self.phase is Start && self.missed@.len() > 0 ==> (self.base matches Some(base)
            ==> base.in_range())
        &&& self.phase is PartitionList || self.phase is Partition ==> (self.base matches Some(base)
            && base.num_reward_partitions is Some && base.in_range())
        &&& forall|i: int|
            0 <= i < self.groups@.len() ==> in_places(
                (#[trigger] self.groups@[i]).places@,
                self.addresses@.len(),
            )
        &&& self.next <= self.groups@.len()
        &&& self.phase is Partition ==> self.next < self.groups@.len() && self.heights_known()
    }

    /// Whether the height of the first block is known, as far as a partition
    /// that is not done has no block.
    pub open spec fn heights_known(self) -> bool {
        forall|i: int|
            self.next <= i < self.groups@.len() && (#[trigger] self.groups@[i]).partition
                >= self.blocks@.len() ==> self.base->0.block_height is Some
    }

    /// What the group that is next needs.
    pub open spec fn group_step(self) -> InflationStep {
        if self.next == self.groups@.len() {
            InflationStep::Done
        } else {
            let partition = self.groups@[self.next as int].partition;
            if partition < self.blocks@.len() {
                InflationStep::Block { slot: self.blocks@[partition as int] }
            } else {
                InflationStep::BlockHeight {
                    rewards_complete_block_height: complete_height(
                        self.base->0.block_height->0,
                        (self.base->0.num_reward_partitions->0) as usize,
                    ),
                }
            }
        }
    }

    /// The phase in which the group that is next is.
    pub open spec fn group_phase(self) -> InflationPhase {
        match self.group_step() {
            InflationStep::Block { slot } => InflationPhase::Partition { slot },
            _ => InflationPhase::Done,
        }
    }

    /// Starts with what the storage has.
    pub fn new(epoch: u64, stored: ReadRequestResultInflationReward) -> (r: InflationProcess)
        requires
            stored.wf(),
        ensures
            r.wf(),
            r.epoch == epoch,
            r.addresses == stored.addresses,
            r.rewards == stored.rewards,
            r.missed == stored.missed,
            r.base == stored.base,
            r.phase == InflationPhase::Start,
            r.next == 0,
    {
        InflationProcess {
            epoch,
            addresses: stored.addresses,
            rewards: stored.rewards,
            missed: stored.missed,
            base: stored.base,
            blocks: Vec::new(),
            groups: Vec::new(),
            next: 0,
            phase: InflationPhase::Start,
        }
    }

    /// Goes on from the first block, once it is known.
    fn request_partitions(&mut self, base: InflationRewardBaseValue) -> (r: InflationStep)
        requires
            base.in_range(),
        ensures
            r == step_behind(base),
            *final(self) == (InflationProcess {
                base: Some(base),
                phase: phase_behind(base),
                ..*old(self)
            }),
    {
        self.base = Some(base);
        match base.num_reward_partitions {
            None => {
                self.phase = InflationPhase::Done;
                InflationStep::Done
            },
            Some(n) => {
                self.phase = InflationPhase::PartitionList;
                InflationStep::Blocks { start_slot: base.slot + 1, limit: n as usize }
            },
        }
    }

    /// What is needed first: nothing where the storage has all rewards, the
    /// blocks of the partitions where it knows the first block, and otherwise
    /// the first block, which has to be confirmed.
    pub fn begin(&mut self, slots: &StoredSlots) -> (r: InflationStep)
        requires
            old(self).wf(),
            old(self).phase == InflationPhase::Start,
        ensures
            final(self).wf(),
            ({
                let first_slot = first_slot_behind(old(self).epoch);
                if old(self).missed@.len() == 0 {
                    &&& r == InflationStep::Done
                    &&& *final(self) == (InflationProcess {
                        phase: InflationPhase::Done,
                        ..*old(self)
                    })
                } else if let Some(base) = old(self).base {
                    &&& r == step_behind(base)
                    &&& *final(self) == (InflationProcess {
                        phase: phase_behind(base),
                        ..*old(self)
                    })
                } else if first_slot > slots.confirmed {
                    &&& r == InflationStep::Reply(
                        Reply::Custom(RpcCustomError::BlockNotAvailable { slot: first_slot }),
                    )
                    &&& *final(self) == (InflationProcess {
                        phase: InflationPhase::Done,
                        ..*old(self)
                    })
                } else {
                    &&& r == (InflationStep::Blocks { start_slot: first_slot, limit: 1 })
                    &&& *final(self) == (InflationProcess {
                        phase: InflationPhase::FirstBlock { first_slot },
                        ..*old(self)
                    })
                }
            }),
    {
        if self.missed.len() == 0 {
            self.phase = InflationPhase::Done;
            return InflationStep::Done;
        }
        if let Some(base) = self.base {
            return self.request_partitions(base);
        }
        let first_slot: u64 = keys::get_first_slot_in_epoch(
            if self.epoch == u64::MAX {
                self.epoch
            } else {
                self.epoch + 1
            },
        );
        if first_slot > slots.confirmed {
            self.phase = InflationPhase::Done;
            return InflationStep::Reply(
                Reply::Custom(RpcCustomError::BlockNotAvailable { slot: first_slot }),
            );
        }
        self.phase = InflationPhase::FirstBlock { first_slot };
        InflationStep::Blocks { start_slot: first_slot, limit: 1 }
    }

    /// Takes the list of blocks that the first block is looked for in.
    pub fn on_first_block(&mut self, blocks: &Vec<u64>) -> (r: InflationStep)
        requires
            old(self).wf(),
            old(self).phase is FirstBlock,
        ensures
            final(self).wf(),
            if blocks@.len() == 0 {
                &&& r == InflationStep::Reply(
                    Reply::Custom(
                        RpcCustomError::BlockNotAvailable {
                            slot: old(self).phase->FirstBlock_first_slot,
                        },
                    ),
                )
                &&& *final(self) == (InflationProcess {
                    phase: InflationPhase::Done,
                    ..*old(self)
                })
            } else {
                &&& r == (InflationStep::Block { slot: blocks@[0] })
                &&& *final(self) == (InflationProcess {
                    phase: InflationPhase::Boundary { slot: blocks@[0] },
                    ..*old(self)
                })
            },
    {
        let first_slot: u64 = match self.phase {
            InflationPhase::FirstBlock { first_slot } => first_slot,
            _ => 0,
        };
        if blocks.len() == 0 {
            self.phase = InflationPhase::Done;
            return InflationStep::Reply(
                Reply::Custom(RpcCustomError::BlockNotAvailable { slot: first_slot }),
            );
        }
        let slot: u64 = blocks[0];
        self.phase = InflationPhase::Boundary { slot };
        InflationStep::Block { slot }
    }

    /// Takes the rewards that were collected from the first block. They are
    /// kept by the storage. The places that they do not fill are looked for in
    /// the partitions.
    #[verifier::spinoff_prover]
    pub fn accept_boundary(
        &mut self,
        block_height: Option<u64>,
        previous_blockhash: Blockhash,
        num_reward_partitions: Option<u64>,
        list: RewardList,
    ) -> (r: (InflationWrite, InflationStep))
        requires
            old(self).wf(),
            old(self).phase is Boundary,
            rewards::still_missed(old(self).addresses@, old(self).missed@, list@).len() > 0 ==> (
            InflationRewardBaseValue {
                slot: old(self).phase->Boundary_slot,
                block_height,
                previous_blockhash,
                num_reward_partitions,
            }).in_range(),
        ensures
            final(self).wf(),
            ({
                let base = InflationRewardBaseValue {
                    slot: old(self).phase->Boundary_slot,
                    block_height,
                    previous_blockhash,
                    num_reward_partitions,
                };
                let missed = rewards::still_missed(
                    old(self).addresses@,
                    old(self).missed@,
                    list@,
                );
                &&& r.0 == (InflationWrite::Base { epoch: old(self).epoch, base, rewards: list })
                &&& r.1 == if missed.len() == 0 {
                    InflationStep::Done
                } else {
                    step_behind(base)
                }
                &&& final(self).phase == if missed.len() == 0 {
                    InflationPhase::Done
                } else {
                    phase_behind(base)
                }
                &&& final(self).rewards@ == rewards::filled(
                    old(self).rewards@,
                    old(self).addresses@,
                    old(self).missed@,
                    list@,
                )
                &&& final(self).missed@ == missed
                &&& final(self).base == Some(base)
                &&& final(self).addresses == old(self).addresses
                &&& final(self).epoch == old(self).epoch
            }),
    {
        let slot: u64 = match self.phase {
            InflationPhase::Boundary { slot } => slot,
            _ => 0,
        };
        let base = InflationRewardBaseValue {
            slot,
            block_height,
            previous_blockhash,
            num_reward_partitions,
        };
        let missed: Vec<usize> = rewards::fill(
            &mut self.rewards,
            &self.addresses,
            &self.missed,
            &list,
        );
        proof {
            assert forall|i: int| 0 <= i < missed@.len() implies missed@[i]
                < self.addresses@.len() by {
                rewards::law_missed_places_have_no_reward(
                    self.addresses@,
                    self.missed@,
                    list@,
                    missed@[i],
                );
                assert(missed@.contains(missed@[i]));
            }
        }
        self.missed = missed;
        let write = InflationWrite::Base { epoch: self.epoch, base, rewards: list };
        if self.missed.len() == 0 {
            self.base = Some(base);
            self.phase = InflationPhase::Done;
            return (write, InflationStep::Done);
        }
        let step = self.request_partitions(base);
        (write, step)
    }

    /// The hash of the block before the first block.
    pub fn boundary_hash(block: &RewardsBlock) -> (r: Result<Blockhash, ParseError>)
        ensures
            r == keys::hash_of(block.previous_blockhash@),
    {
        keys::parse_hash(block.previous_blockhash.as_str())
    }

    /// What the storage keeps of the first block.
    pub open spec fn boundary_base(self, block: RewardsBlock, previous_blockhash: Blockhash) -> InflationRewardBaseValue {
        InflationRewardBaseValue {
            slot: self.phase->Boundary_slot,
            block_height: block.block_height,
            previous_blockhash,
            num_reward_partitions: block.num_reward_partitions,
        }
    }

    /// What is collected of the rewards of the first block: their list, or the
    /// first one whose address is malformed.
    pub open spec fn boundary_rewards(self, block: RewardsBlock) -> Result<
        Seq<(Pubkey, RpcInflationReward)>,
        int,
    > {
        let all = rewards::rewards_or_none(block.rewards);
        rewards::collected(
            self.epoch,
            self.phase->Boundary_slot,
            RewardFilter::Boundary { partitioned: block.num_reward_partitions is Some },
            all,
            rewards::addresses_of(all),
            all.len(),
        )
    }

    /// Whether the number of partitions and the slot behind the first block
    /// can be represented, where places stay missed and they are needed.
    pub open spec fn boundary_in_range(self, block: RewardsBlock, previous_blockhash: Blockhash) -> bool {
        match self.boundary_rewards(block) {
            Err(_) => true,
            Ok(list) => rewards::still_missed(self.addresses@, self.missed@, list).len() > 0
                ==> self.boundary_base(block, previous_blockhash).in_range(),
        }
    }

    /// Whether `after` and `r` are what comes of the first block: its rewards
    /// are filled in and kept, and the places that they do not fill are looked
    /// for in the partitions.
    pub open spec fn boundary_taken(
        self,
        block: RewardsBlock,
        previous_blockhash: Blockhash,
        after: InflationProcess,
        r: Result<(InflationWrite, InflationStep), Failure>,
    ) -> bool {
        let base = self.boundary_base(block, previous_blockhash);
        match self.boundary_rewards(block) {
            Err(i) => {
                &&& r == Err::<(InflationWrite, InflationStep), Failure>(
                    Failure::PubkeyMalformed(rewards::rewards_or_none(block.rewards)[i].pubkey),
                )
                &&& after == self
            },
            Ok(list) => {
                let missed = rewards::still_missed(self.addresses@, self.missed@, list);
                &&& r matches Ok((write, step))
                &&& write matches InflationWrite::Base { epoch, base: written, rewards }
                &&& epoch == self.epoch
                &&& written == base
                &&& rewards@ == list
                &&& step == if missed.len() == 0 {
                    InflationStep::Done
                } else {
                    step_behind(base)
                }
                &&& after.rewards@ == rewards::filled(
                    self.rewards@,
                    self.addresses@,
                    self.missed@,
                    list,
                )
                &&& after.missed@ == missed
                &&& after.base == Some(base)
                &&& after.phase == if missed.len() == 0 {
                    InflationPhase::Done
                } else {
                    phase_behind(base)
                }
                &&& after.addresses == self.addresses
                &&& after.epoch == self.epoch
            },
        }
    }

    /// Takes the first block, with the hash of the block before it: collects
    /// its rewards, and goes on with them. Fails where one of their addresses
    /// is malformed.
    #[verifier::spinoff_prover]
    pub fn on_boundary_block(&mut self, block: RewardsBlock, previous_blockhash: Blockhash) -> (r: Result<
        (InflationWrite, InflationStep),
        Failure,
    >)
        requires
            old(self).wf(),
            old(self).phase is Boundary,
            old(self).boundary_in_range(block, previous_blockhash),
        ensures
            final(self).wf(),
            old(self).boundary_taken(block, previous_blockhash, *final(self), r),
    {
        let slot: u64 = match self.phase {
            InflationPhase::Boundary { slot } => slot,
            _ => 0,
        };
        let filter = RewardFilter::Boundary { partitioned: block.num_reward_partitions.is_some() };
        match rewards::filter_rewards(self.epoch, slot, filter, &block.rewards) {
            Err(failure) => Err(failure),
            Ok(list) => Ok(
                self.accept_boundary(
                    block.block_height,
                    previous_blockhash,
                    block.num_reward_partitions,
                    list,
                ),
            ),
        }
    }

    /// Takes the first block as `on_boundary_block` does. Where places stay
    /// missed, and the number of partitions or the slot behind the block
    /// cannot be represented, there is no result and nothing changes.
    #[verifier::spinoff_prover]
    pub fn try_boundary_block(&mut self, block: RewardsBlock, previous_blockhash: Blockhash) -> (r: Option<
        Result<(InflationWrite, InflationStep), Failure>,
    >)
        requires
            old(self).wf(),
            old(self).phase is Boundary,
        ensures
            final(self).wf(),
            r is Some <==> old(self).boundary_in_range(block, previous_blockhash),
            r is None ==> *final(self) == *old(self),
            r matches Some(result) ==> old(self).boundary_taken(
                block,
                previous_blockhash,
                *final(self),
                result,
            ),
    {
        let slot: u64 = match self.phase {
            InflationPhase::Boundary { slot } => slot,
            _ => 0,
        };
        let in_range: bool = match block.num_reward_partitions {
            Some(n) => n <= usize::MAX as u64 && slot < u64::MAX,
            None => true,
        };
        if !in_range {
            let filter = RewardFilter::Boundary { partitioned: true };
            if let Ok(list) = rewards::filter_rewards(self.epoch, slot, filter, &block.rewards) {
                if rewards::is_any_missed(&self.addresses, &self.missed, &list) {
                    return None;
                }
            }
        }
        Some(self.on_boundary_block(block, previous_blockhash))
    }

    /// Takes the first block: reads the hash of the block before it, collects
    /// its rewards, and goes on with them. Fails where one of their addresses
    /// is malformed. There is no result, and nothing changes, where the hash is
    /// malformed, or where places stay missed and the number of partitions or
    /// the slot behind the block cannot be represented.
    pub fn on_boundary(&mut self, block: RewardsBlock) -> (r: Option<
        Result<(InflationWrite, InflationStep), Failure>,
    >)
        requires
            old(self).wf(),
            old(self).phase is Boundary,
        ensures
            final(self).wf(),
            match keys::hash_of(block.previous_blockhash@) {
                Err(_) => {
                    &&& r is None
                    &&& *final(self) == *old(self)
                },
                Ok(previous_blockhash) => {
                    &&& r is Some <==> old(self).boundary_in_range(block, previous_blockhash)
                    &&& r is None ==> *final(self) == *old(self)
                    &&& r matches Some(result) ==> old(self).boundary_taken(
                        block,
                        previous_blockhash,
                        *final(self),
                        result,
                    )
                },
            },
    {
        match InflationProcess::boundary_hash(&block) {
            Err(_) => None,
            Ok(previous_blockhash) => self.try_boundary_block(block, previous_blockhash),
        }
    }

    /// The partition of each address that is looked for.
    pub open spec fn missed_partitions(self) -> Seq<usize> {
        Seq::new(
            self.missed@.len(),
            |i: int|
                keys::partition_of(
                    (self.base->0.num_reward_partitions->0) as usize,
                    self.base->0.previous_blockhash,
                    self.addresses@[self.missed@[i] as int],
                ),
        )
    }

    /// The partition of each address that is looked for.
    pub fn partitions(&self) -> (r: Vec<usize>)
        requires
            self.wf(),
            self.phase == InflationPhase::PartitionList,
        ensures
            r@ == self.missed_partitions(),
    {
        let mut partitions: Vec<usize> = Vec::new();
        if let Some(base) = self.base {
            if let Some(n) = base.num_reward_partitions {
                let mut i: usize = 0;
                while i < self.missed.len()
                    invariant
                        self.wf(),
                        self.base == Some(base),
                        base.num_reward_partitions == Some(n),
                        i <= self.missed.len(),
                        partitions@.len() == i,
                        forall|j: int|
                            0 <= j < i ==> #[trigger] partitions@[j] == keys::partition_of(
                                n as usize,
                                base.previous_blockhash,
                                self.addresses@[self.missed@[j] as int],
                            ),
                    decreases self.missed.len() - i,
                {
                    partitions.push(
                        keys::hash_address_to_partition(
                            n as usize,
                            &base.previous_blockhash,
                            &self.addresses[self.missed[i]],
                        ),
                    );
                    i = i + 1;
                }
            }
        }
        partitions
    }

    /// Goes on to the group that is next.
    fn next_group(&mut self) -> (r: InflationStep)
        requires
            old(self).base is Some,
            old(self).base->0.num_reward_partitions is Some,
            old(self).next <= old(self).groups@.len(),
            old(self).heights_known(),
        ensures
            r == old(self).group_step(),
            *final(self) == (InflationProcess { phase: old(self).group_phase(), ..*old(self) }),
    {
        if self.next == self.groups.len() {
            self.phase = InflationPhase::Done;
            return InflationStep::Done;
        }
        let partition: usize = self.groups[self.next].partition;
        if partition < self.blocks.len() {
            let slot: u64 = self.blocks[partition];
            self.phase = InflationPhase::Partition { slot };
            return InflationStep::Block { slot };
        }
        self.phase = InflationPhase::Done;
        let mut rewards_complete_block_height: u64 = 0;
        if let Some(base) = self.base {
            if let (Some(height), Some(n)) = (base.block_height, base.num_reward_partitions) {
                let n: usize = n as usize;
                rewards_complete_block_height = height.saturating_add(n as u64).saturating_add(1);
            }
        }
        InflationStep::BlockHeight { rewards_complete_block_height }
    }

    /// Whether the height of the first block is known, as far as one of the
    /// partitions has no block.
    pub open spec fn height_suffices(self, blocks: Seq<u64>, partitions: Seq<usize>) -> bool {
        forall|i: int|
            0 <= i < partitions.len() && #[trigger] partitions[i] >= blocks.len()
                ==> self.base->0.block_height is Some
    }

    /// Whether `after` and `r` are what comes of the blocks that pay
    /// partitions: the places that are looked for are grouped by partition, and
    /// the first group is next.
    pub open spec fn list_taken(
        self,
        blocks: Vec<u64>,
        partitions: Seq<usize>,
        after: InflationProcess,
        r: InflationStep,
    ) -> bool {
        &&& after.blocks == blocks
        &&& group_views(after.groups@) == grouped(self.missed@, partitions, partitions.len())
        &&& after.next == 0
        &&& r == after.group_step()
        &&& after.phase == after.group_phase()
        &&& after.rewards == self.rewards
        &&& after.addresses == self.addresses
        &&& after.missed == self.missed
        &&& after.base == self.base
        &&& after.epoch == self.epoch
    }

    /// Takes the blocks that pay partitions, with the partition of each
    /// address that is looked for. Where the list is too short to hold the
    /// block of a partition, rewards are still being paid.
    #[verifier::spinoff_prover]
    pub fn on_partition_list(&mut self, blocks: Vec<u64>, partitions: Vec<usize>) -> (r: InflationStep)
        requires
            old(self).wf(),
            old(self).phase == InflationPhase::PartitionList,
            partitions@.len() == old(self).missed@.len(),
            old(self).height_suffices(blocks@, partitions@),
        ensures
            final(self).wf(),
            old(self).list_taken(blocks, partitions@, *final(self), r),
    {
        let groups: Vec<PartitionGroup> = group_places(&self.missed, &partitions);
        proof {
            let all = grouped(self.missed@, partitions@, partitions@.len());
            lemma_grouped_places(
                self.missed@,
                partitions@,
                partitions@.len(),
                self.addresses@.len(),
            );
            assert forall|i: int| 0 <= i < groups@.len() implies in_places(
                (#[trigger] groups@[i]).places@,
                self.addresses@.len(),
            ) by {
                assert(group_views(groups@)[i].1 == groups@[i].places@);
                assert(in_places(all[i].1, self.addresses@.len()));
            }
            assert forall|i: int|
                0 <= i < groups@.len() && (#[trigger] groups@[i]).partition
                    >= blocks@.len() implies self.base->0.block_height is Some by {
                assert(group_views(groups@)[i].0 == groups@[i].partition);
                let k = lemma_grouped_partitions(
                    self.missed@,
                    partitions@,
                    partitions@.len(),
                    i,
                );
                assert(partitions@[k] >= blocks@.len());
            }
        }
        self.blocks = blocks;
        self.groups = groups;
        self.next = 0;
        self.next_group()
    }

    /// Takes the blocks that pay partitions: finds the partition of each
    /// address that is looked for, and goes on with the block of the first.
    /// There is no result, and nothing changes, where a partition has no block
    /// and the height of the first block is not known.
    pub fn on_partition_blocks(&mut self, blocks: Vec<u64>) -> (r: Option<InflationStep>)
        requires
            old(self).wf(),
            old(self).phase == InflationPhase::PartitionList,
        ensures
            final(self).wf(),
            r is Some <==> old(self).height_suffices(blocks@, old(self).missed_partitions()),
            r is None ==> *final(self) == *old(self),
            r matches Some(step) ==> old(self).list_taken(
                blocks,
                old(self).missed_partitions(),
                *final(self),
                step,
            ),
    {
        let partitions: Vec<usize> = self.partitions();
        let height_known: bool = match self.base {
            Some(base) => base.block_height.is_some(),
            None => false,
        };
        if !height_known {
            let mut i: usize = 0;
            while i < partitions.len()
                invariant
                    i <= partitions.len(),
                    partitions@ == self.missed_partitions(),
                    self.base->0.block_height is None,
                    self.wf(),
                    *self == *old(self),
                    forall|j: int| 0 <= j < i ==> #[trigger] partitions@[j] < blocks@.len(),
                decreases partitions.len() - i,
            {
                if partitions[i] >= blocks.len() {
                    assert(partitions@[i as int] >= blocks@.len());
                    return None;
                }
                i = i + 1;
            }
        }
        Some(self.on_partition_list(blocks, partitions))
    }

    /// Takes the rewards that were collected from the block of a partition.
    /// They are kept by the storage.
    pub fn accept_partition(&mut self, list: RewardList) -> (r: (InflationWrite, InflationStep))
        requires
            old(self).wf(),
            old(self).phase is Partition,
        ensures
            final(self).wf(),
            ({
                let group = old(self).groups@[old(self).next as int];
                &&& r.0 == (InflationWrite::Partition {
                    epoch: old(self).epoch,
                    partition: group.partition,
                    rewards: list,
                })
                &&& r.1 == final(self).group_step()
                &&& final(self).phase == final(self).group_phase()
                &&& final(self).rewards@ == rewards::filled(
                    old(self).rewards@,
                    old(self).addresses@,
                    group.places@,
                    list@,
                )
                &&& final(self).next == old(self).next + 1
                &&& final(self).groups == old(self).groups
                &&& final(self).blocks == old(self).blocks
                &&& final(self).addresses == old(self).addresses
                &&& final(self).missed == old(self).missed
                &&& final(self).base == old(self).base
                &&& final(self).epoch == old(self).epoch
            }),
    {
        let partition: usize = self.groups[self.next].partition;
        let _ = rewards::fill(
            &mut self.rewards,
            &self.addresses,
            &self.groups[self.next].places,
            &list,
        );
        let total: usize = self.groups.len();
        assert(self.next < total);
        self.next = self.next + 1;
        let write = InflationWrite::Partition { epoch: self.epoch, partition, rewards: list };
        let step = self.next_group();
        (write, step)
    }

    /// Takes the block of a partition: collects its rewards, and goes on with
    /// them. Fails where one of their addresses is malformed.
    pub fn on_partition_block(&mut self, block: &RewardsBlock) -> (r: Result<
        (InflationWrite, InflationStep),
        Failure,
    >)
        requires
            old(self).wf(),
            old(self).phase is Partition,
        ensures
            final(self).wf(),
            ({
                let group = old(self).groups@[old(self).next as int];
                let all = rewards::rewards_or_none(block.rewards);
                match rewards::collected(
                    old(self).epoch,
                    old(self).phase->Partition_slot,
                    RewardFilter::Partition,
                    all,
                    rewards::addresses_of(all),
                    all.len(),
                ) {
                    Err(i) => {
                        &&& r == Err::<(InflationWrite, InflationStep), Failure>(
                            Failure::PubkeyMalformed(all[i].pubkey),
                        )
                        &&& *final(self) == *old(self)
                    },
                    Ok(list) => {
                        &&& r matches Ok((write, step))
                        &&& write matches InflationWrite::Partition { epoch, partition, rewards }
                        &&& epoch == old(self).epoch
                        &&& partition == group.partition
                        &&& rewards@ == list
                        &&& step == final(self).group_step()
                        &&& final(self).phase == final(self).group_phase()
                        &&& final(self).rewards@ == rewards::filled(
                            old(self).rewards@,
                            old(self).addresses@,
                            group.places@,
                            list,
                        )
                        &&& final(self).next == old(self).next + 1
                        &&& final(self).groups == old(self).groups
                        &&& final(self).blocks == old(self).blocks
                        &&& final(self).addresses == old(self).addresses
                        &&& final(self).missed == old(self).missed
                        &&& final(self).base == old(self).base
                        &&& final(self).epoch == old(self).epoch
                    },
                }
            }),
    {
        let slot: u64 = match self.phase {
            InflationPhase::Partition { slot } => slot,
            _ => 0,
        };
        match rewards::filter_rewards(self.epoch, slot, RewardFilter::Partition, &block.rewards) {
            Err(failure) => Err(failure),
            Ok(list) => Ok(self.accept_partition(list)),
        }
    }

    /// The reply with the rewards, once they are complete.
    pub fn reply(self) -> (r: Reply)
        ensures
            r == Reply::Success(Payload::Rewards(self.rewards)),
    {
        Reply::Success(Payload::Rewards(self.rewards))
    }
}

/// Filling in rewards changes no place that is not looked for: what the
/// storage has stays.
pub proof fn law_known_rewards_stay(
    rewards: Seq<Option<RpcInflationReward>>,
    addresses: Seq<Pubkey>,
    places: Seq<usize>,
    list: Seq<(Pubkey, RpcInflationReward)>,
    place: usize,
)
    requires
        place < rewards.len(),
        !places.contains(place),
    ensures
        rewards::filled(rewards, addresses, places, list)[place as int] == rewards[place as int],
{
}

/// A place that is looked for gets the reward that its address has in a list.
pub proof fn law_looked_for_rewards_are_found(
    rewards: Seq<Option<RpcInflationReward>>,
    addresses: Seq<Pubkey>,
    places: Seq<usize>,
    list: Seq<(Pubkey, RpcInflationReward)>,
    place: usize,
)
    requires
        place < rewards.len(),
        places.contains(place),
        rewards::reward_for(list, addresses[place as int]) is Some,
    ensures
        rewards::filled(rewards, addresses, places, list)[place as int] == rewards::reward_for(
            list,
            addresses[place as int],
        ),
{
}

/// The rewards after the lists of the first `n` groups were filled in.
pub open spec fn filled_groups(
    rewards: Seq<Option<RpcInflationReward>>,
    addresses: Seq<Pubkey>,
    groups: Seq<(usize, Seq<usize>)>,
    lists: Seq<Seq<(Pubkey, RpcInflationReward)>>,
    n: nat,
) -> Seq<Option<RpcInflationReward>>
    decreases n,
{
    if n == 0 {
        rewards
    } else {
        rewards::filled(
            filled_groups(rewards, addresses, groups, lists, (n - 1) as nat),
            addresses,
            groups[n - 1].1,
            lists[n - 1],
        )
    }
}

/// A place of a partition is one of the places that are in that partition.
pub(crate) proof fn lemma_place_has_its_partition(
    places: Seq<usize>,
    partitions: Seq<usize>,
    partition: usize,
    n: nat,
    place: usize,
) -> (k: int)
    requires
        places_of(places, partitions, partition, n).contains(place),
    ensures
        0 <= k < n,
        places[k] == place,
        partitions[k] == partition,
    decreases n,
{
    let all = places_of(places, partitions, partition, n);
    let i = choose|i: int| 0 <= i < all.len() && all[i] == place;
    let init = places_of(places, partitions, partition, (n - 1) as nat);
    if i < init.len() {
        assert(init[i] == place);
        lemma_place_has_its_partition(places, partitions, partition, (n - 1) as nat, place)
    } else {
        n - 1
    }
}

/// A place that is in one group only gets what the list of that group has for
/// its address.
proof fn lemma_filled_by_its_group(
    rewards: Seq<Option<RpcInflationReward>>,
    addresses: Seq<Pubkey>,
    groups: Seq<(usize, Seq<usize>)>,
    lists: Seq<Seq<(Pubkey, RpcInflationReward)>>,
    n: nat,
    g: int,
    place: usize,
)
    requires
        place < rewards.len(),
        n <= groups.len(),
        0 <= g < groups.len(),
        groups[g].1.contains(place),
        forall|h: int|
            0 <= h < groups.len() && h != g ==> !(#[trigger] groups[h]).1.contains(place),
    ensures
        filled_groups(rewards, addresses, groups, lists, n).len() == rewards.len(),
        filled_groups(rewards, addresses, groups, lists, n)[place as int] == if g < n
            && rewards::reward_for(lists[g], addresses[place as int]) is Some {
            rewards::reward_for(lists[g], addresses[place as int])
        } else {
            rewards[place as int]
        },
    decreases n,
{
    if n > 0 {
        lemma_filled_by_its_group(
            rewards,
            addresses,
            groups,
            lists,
            (n - 1) as nat,
            g,
            place,
        );
        if n - 1 != g {
            assert(!groups[n - 1].1.contains(place));
        }
    }
}

/// Once the lists of all groups are filled in, the reward at a place that was
/// looked for is the one that the list of its partition has for its address.
/// Where that has none, the place is as it was.
pub proof fn law_rewards_come_from_their_partition(
    rewards: Seq<Option<RpcInflationReward>>,
    addresses: Seq<Pubkey>,
    places: Seq<usize>,
    partitions: Seq<usize>,
    lists: Seq<Seq<(Pubkey, RpcInflationReward)>>,
    k: int,
) -> (g: int)
    requires
        places.len() == partitions.len(),
        in_places(places, rewards.len()),
        forall|i: int, j: int|
            0 <= i < places.len() && 0 <= j < places.len() && #[trigger] places[i]
                == #[trigger] places[j] ==> partitions[i] == partitions[j],
        0 <= k < places.len(),
    ensures
        ({
            let groups = grouped(places, partitions, places.len());
            let place = places[k] as int;
            &&& 0 <= g < groups.len()
            &&& groups[g].0 == partitions[k]
            &&& filled_groups(rewards, addresses, groups, lists, groups.len())[place] == if rewards::reward_for(
                lists[g],
                addresses[place],
            ) is Some {
                rewards::reward_for(lists[g], addresses[place])
            } else {
                rewards[place]
            }
        }),
{
    let n = places.len();
    let groups = grouped(places, partitions, n);
    let place = places[k];
    let g = law_every_place_is_grouped(places, partitions, n, k);
    law_group_holds_its_places(places, partitions, n, g);
    assert forall|h: int| 0 <= h < groups.len() && h != g implies !(
    #[trigger] groups[h]).1.contains(place) by {
        law_group_holds_its_places(places, partitions, n, h);
        if groups[h].1.contains(place) {
            let j = lemma_place_has_its_partition(places, partitions, groups[h].0, n, place);
            assert(places[j] == places[k]);
            if h < g {
                law_groups_are_distinct(places, partitions, n, h, g);
            } else {
                law_groups_are_distinct(places, partitions, n, g, h);
            }
        }
    }
    lemma_filled_by_its_group(rewards, addresses, groups, lists, groups.len(), g, place);
    g
}

} // verus!
