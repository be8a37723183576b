//! The rewards that blocks hold.

use crate::rpc::action::Failure;
use crate::rpc::jsonrpc::RpcInflationReward;
use crate::rpc::keys::{self, Pubkey};
use vstd::prelude::*;

verus! {

/// What a reward is paid for.
#[derive(Debug, Clone, Copy, PartialEq, Eq, Structural)]
pub enum RewardType {
    Fee,
    Rent,
    Staking,
    Voting,
    DeactivatedStake,
}

/// A reward that a block holds.
#[derive(Debug)]
pub struct Reward {
    /// The text of the address.
    pub pubkey: String,
    pub lamports: i64,
    pub post_balance: u64,
    pub reward_type: Option<RewardType>,
    pub commission: Option<u8>,
    pub commission_bps: Option<u16>,
}

/// A block, as far as its rewards are concerned.
#[derive(Debug)]
pub struct RewardsBlock {
    /// The text of the hash of the block before it.
    pub previous_blockhash: String,
    pub block_height: Option<u64>,
    pub num_reward_partitions: Option<u64>,
    pub rewards: Option<Vec<Reward>>,
}

/// Which rewards of a block are collected.
#[derive(Debug, Clone, Copy, PartialEq, Eq, Structural)]
pub enum RewardFilter {
    /// Of the first block of an epoch, whose stake rewards are paid in
    /// partitions or not.
    Boundary { partitioned: bool },
    /// Of a block that pays a partition.
    Partition,
}

impl RewardFilter {
    /// Whether a reward is collected.
    pub open spec fn admits(self, reward_type: Option<RewardType>) -> bool {
        match reward_type {
            None => false,
            Some(kind) => match self {
                RewardFilter::Boundary { partitioned } => kind == RewardType::Voting || (
                !partitioned && kind == RewardType::Staking),
                RewardFilter::Partition => kind == RewardType::Staking || kind
                    == RewardType::DeactivatedStake,
            },
        }
    }

    /// Whether a reward is collected.
    pub fn matches(&self, reward_type: Option<RewardType>) -> (r: bool)
        ensures
            r == self.admits(reward_type),
    {
        match reward_type {
            None => false,
            Some(kind) => match self {
                RewardFilter::Boundary { partitioned } => kind == RewardType::Voting || (
                !*partitioned && kind == RewardType::Staking),
                RewardFilter::Partition => kind == RewardType::Staking || kind
                    == RewardType::DeactivatedStake,
            },
        }
    }
}

/// The absolute value of a number.
pub open spec fn magnitude(n: i64) -> u64 {
    if n < 0 {
        (-n) as u64
    } else {
        n as u64
    }
}

/// The absolute value of a number.
fn unsigned_abs(n: i64) -> (r: u64)
    ensures
        r == magnitude(n),
{
    if n < 0 {
        (-(n + 1)) as u64 + 1
    } else {
        n as u64
    }
}

/// The rewards of a list of addresses. Of two for the same address the later
/// one counts.
pub type RewardList = Vec<(Pubkey, RpcInflationReward)>;

/// The rewards of a list of addresses, by address.
pub open spec fn by_address(list: Seq<(Pubkey, RpcInflationReward)>) -> Map<
    Pubkey,
    RpcInflationReward,
>
    decreases list.len(),
{
    if list.len() == 0 {
        Map::empty()
    } else {
        by_address(list.drop_last()).insert(list.last().0, list.last().1)
    }
}

/// The reward of an address.
pub open spec fn reward_for(list: Seq<(Pubkey, RpcInflationReward)>, address: Pubkey) -> Option<
    RpcInflationReward,
> {
    if by_address(list).contains_key(address) {
        Some(by_address(list)[address])
    } else {
        None
    }
}

/// The reward of an address.
pub fn find_reward(list: &RewardList, address: &Pubkey) -> (r: Option<RpcInflationReward>)
    ensures
        r == reward_for(list@, *address),
{
    let mut n: usize = list.len();
    assert(list@.take(n as int) =~= list@);
    while n > 0
        invariant
            n <= list.len(),
            reward_for(list@, *address) == reward_for(list@.take(n as int), *address),
        decreases n,
    {
        let ghost part = list@.take(n as int);
        assert(part.last() == list@[n - 1]);
        assert(part.drop_last() =~= list@.take(n - 1));
        if list[n - 1].0.same(address) {
            return Some(list[n - 1].1);
        }
        n = n - 1;
    }
    None
}

/// The reward that an address has from a reward of a block.
pub open spec fn inflation_reward(epoch: u64, slot: u64, reward: Reward) -> RpcInflationReward {
    RpcInflationReward {
        epoch,
        effective_slot: slot,
        amount: magnitude(reward.lamports),
        post_balance: reward.post_balance,
        commission: reward.commission,
        commission_bps: reward.commission_bps,
    }
}

/// What is collected of the first `n` rewards of a block, given the addresses
/// of the rewards: their list, or the first one whose address is malformed.
pub open spec fn collected(
    epoch: u64,
    slot: u64,
    filter: RewardFilter,
    rewards: Seq<Reward>,
    addresses: Seq<Option<Pubkey>>,
    n: nat,
) -> Result<Seq<(Pubkey, RpcInflationReward)>, int>
    decreases n,
{
    if n == 0 {
        Ok(Seq::empty())
    } else {
        match collected(epoch, slot, filter, rewards, addresses, (n - 1) as nat) {
            Err(i) => Err(i),
            Ok(init) => {
                let reward = rewards[n - 1];
                if !filter.admits(reward.reward_type) {
                    Ok(init)
                } else {
                    match addresses[n - 1] {
                        None => Err(n - 1),
                        Some(address) => Ok(
                            init.push((address, inflation_reward(epoch, slot, reward))),
                        ),
                    }
                }
            },
        }
    }
}

/// The addresses of the rewards of a block, where their texts are addresses.
pub open spec fn addresses_of(rewards: Seq<Reward>) -> Seq<Option<Pubkey>> {
    Seq::new(
        rewards.len(),
        |i: int|
            match keys::pubkey_of(rewards[i].pubkey@) {
                Ok(address) => Some(address),
                Err(_) => None,
            },
    )
}

/// The rewards of a block that says nothing of rewards are none.
pub open spec fn rewards_or_none(rewards: Option<Vec<Reward>>) -> Seq<Reward> {
    match rewards {
        Some(rewards) => rewards@,
        None => Seq::empty(),
    }
}

/// Whether `r` is what is collected of the rewards of a block, or the failure
/// for the first malformed address.
pub open spec fn is_collected(
    epoch: u64,
    slot: u64,
    filter: RewardFilter,
    rewards: Seq<Reward>,
    addresses: Seq<Option<Pubkey>>,
    r: Result<RewardList, Failure>,
) -> bool {
    match collected(epoch, slot, filter, rewards, addresses, rewards.len()) {
        Ok(list) => r matches Ok(found) && found@ == list,
        Err(i) => r == Err::<RewardList, Failure>(Failure::PubkeyMalformed(rewards[i].pubkey)),
    }
}

/// A malformed address among the first rewards is the first malformed one.
proof fn lemma_collected_error(
    epoch: u64,
    slot: u64,
    filter: RewardFilter,
    rewards: Seq<Reward>,
    addresses: Seq<Option<Pubkey>>,
    i: nat,
    n: nat,
)
    requires
        i <= n,
        collected(epoch, slot, filter, rewards, addresses, i) is Err,
    ensures
        collected(epoch, slot, filter, rewards, addresses, n) == collected(
            epoch,
            slot,
            filter,
            rewards,
            addresses,
            i,
        ),
    decreases n,
{
    if i < n {
        lemma_collected_error(epoch, slot, filter, rewards, addresses, i, (n - 1) as nat);
    }
}

/// Collects the rewards of a block, given the addresses of the rewards.
pub fn filter_rewards_with(
    epoch: u64,
    slot: u64,
    filter: RewardFilter,
    rewards: &Vec<Reward>,
    addresses: &Vec<Option<Pubkey>>,
) -> (r: Result<RewardList, Failure>)
    requires
        addresses@.len() == rewards@.len(),
    ensures
        is_collected(epoch, slot, filter, rewards@, addresses@, r),
{
    let mut list: RewardList = Vec::new();
    let mut i: usize = 0;
    while i < rewards.len()
        invariant
            i <= rewards.len(),
            addresses@.len() == rewards@.len(),
            collected(epoch, slot, filter, rewards@, addresses@, i as nat) == Ok::<
                Seq<(Pubkey, RpcInflationReward)>,
                int,
            >(list@),
        decreases rewards.len() - i,
    {
        let reward: &Reward = &rewards[i];
        if filter.matches(reward.reward_type) {
            match addresses[i] {
                None => {
                    proof {
                        lemma_collected_error(
                            epoch,
                            slot,
                            filter,
                            rewards@,
                            addresses@,
                            (i + 1) as nat,
                            rewards@.len(),
                        );
                    }
                    return Err(Failure::PubkeyMalformed(reward.pubkey.clone()));
                },
                Some(address) => {
                    list.push(
                        (
                            address,
                            RpcInflationReward {
                                epoch,
                                effective_slot: slot,
                                amount: unsigned_abs(reward.lamports),
                                post_balance: reward.post_balance,
                                commission: reward.commission,
                                commission_bps: reward.commission_bps,
                            },
                        ),
                    );
                },
            }
        }
        i = i + 1;
    }
    Ok(list)
}

/// Collects the rewards of a block. The first reward that would be collected
/// and whose address is malformed makes it fail.
pub fn filter_rewards(epoch: u64, slot: u64, filter: RewardFilter, rewards: &Option<Vec<Reward>>) -> (r: Result<
    RewardList,
    Failure,
>)
    ensures
        is_collected(
            epoch,
            slot,
            filter,
            rewards_or_none(*rewards),
            addresses_of(rewards_or_none(*rewards)),
            r,
        ),
{
    let rewards: &Vec<Reward> = match rewards {
        Some(rewards) => rewards,
        None => {
            return Ok(Vec::new());
        },
    };
    let mut addresses: Vec<Option<Pubkey>> = Vec::new();
    let mut i: usize = 0;
    while i < rewards.len()
        invariant
            i <= rewards.len(),
            addresses@.len() == i,
            forall|j: int| 0 <= j < i ==> #[trigger] addresses@[j] == addresses_of(rewards@)[j],
        decreases rewards.len() - i,
    {
        addresses.push(
            match keys::parse_pubkey(rewards[i].pubkey.as_str()) {
                Ok(address) => Some(address),
                Err(_) => None,
            },
        );
        i = i + 1;
    }
    assert(addresses@ =~= addresses_of(rewards@));
    filter_rewards_with(epoch, slot, filter, rewards, &addresses)
}

/// The reward of an address in a list with one more reward.
proof fn lemma_reward_pushed(
    list: Seq<(Pubkey, RpcInflationReward)>,
    last: (Pubkey, RpcInflationReward),
    address: Pubkey,
)
    ensures
        reward_for(list.push(last), address) == if last.0 == address {
            Some(last.1)
        } else {
            reward_for(list, address)
        },
{
    assert(list.push(last).drop_last() =~= list);
}

/// Whether the `k`th reward of a block is collected for an address.
pub open spec fn collected_for(
    filter: RewardFilter,
    rewards: Seq<Reward>,
    addresses: Seq<Option<Pubkey>>,
    address: Pubkey,
    k: int,
) -> bool {
    filter.admits(rewards[k].reward_type) && addresses[k] == Some(address)
}

/// The reward of an address among those collected is the last one of the block
/// that is collected for it.
pub(crate) proof fn lemma_collected_reward(
    epoch: u64,
    slot: u64,
    filter: RewardFilter,
    rewards: Seq<Reward>,
    addresses: Seq<Option<Pubkey>>,
    n: nat,
    address: Pubkey,
)
    requires
        collected(epoch, slot, filter, rewards, addresses, n) is Ok,
    ensures
        ({
            let list = collected(epoch, slot, filter, rewards, addresses, n)->Ok_0;
            &&& reward_for(list, address) matches Some(reward) ==> exists|k: int|
                0 <= k < n && #[trigger] collected_for(filter, rewards, addresses, address, k)
                    && reward == inflation_reward(epoch, slot, rewards[k]) && forall|j: int|
                    k < j < n ==> !#[trigger] collected_for(
                        filter,
                        rewards,
                        addresses,
                        address,
                        j,
                    )
            &&& reward_for(list, address) is None ==> forall|k: int|
                0 <= k < n ==> !#[trigger] collected_for(filter, rewards, addresses, address, k)
        }),
    decreases n,
{
    if n > 0 {
        let m = (n - 1) as nat;
        lemma_collected_reward(epoch, slot, filter, rewards, addresses, m, address);
        let init = collected(epoch, slot, filter, rewards, addresses, m)->Ok_0;
        if filter.admits(rewards[m as int].reward_type) {
            let last = (
                addresses[m as int]->0,
                inflation_reward(epoch, slot, rewards[m as int]),
            );
            lemma_reward_pushed(init, last, address);
            if last.0 == address {
                assert(collected_for(filter, rewards, addresses, address, m as int));
            }
        }
        let list = collected(epoch, slot, filter, rewards, addresses, n)->Ok_0;
        if !collected_for(filter, rewards, addresses, address, m as int) {
            assert(reward_for(list, address) == reward_for(init, address));
            if let Some(reward) = reward_for(init, address) {
                let k = choose|k: int|
                    0 <= k < m && #[trigger] collected_for(filter, rewards, addresses, address, k)
                        && reward == inflation_reward(epoch, slot, rewards[k]) && forall|j: int|
                        k < j < m ==> !#[trigger] collected_for(
                            filter,
                            rewards,
                            addresses,
                            address,
                            j,
                        );
                assert(collected_for(filter, rewards, addresses, address, k));
            }
        }
    }
}

/// What is collected of a block are its rewards that the filter admits.
pub(crate) proof fn lemma_collected_source(
    epoch: u64,
    slot: u64,
    filter: RewardFilter,
    rewards: Seq<Reward>,
    addresses: Seq<Option<Pubkey>>,
    n: nat,
    m: int,
) -> (k: int)
    requires
        collected(epoch, slot, filter, rewards, addresses, n) is Ok,
        0 <= m < collected(epoch, slot, filter, rewards, addresses, n)->Ok_0.len(),
    ensures
        0 <= k < n,
        ({
            let list = collected(epoch, slot, filter, rewards, addresses, n)->Ok_0;
            collected_for(filter, rewards, addresses, list[m].0, k) && list[m].1
                == inflation_reward(epoch, slot, rewards[k])
        }),
    decreases n,
{
    let init = collected(epoch, slot, filter, rewards, addresses, (n - 1) as nat)->Ok_0;
    if m < init.len() {
        lemma_collected_source(epoch, slot, filter, rewards, addresses, (n - 1) as nat, m)
    } else {
        n - 1
    }
}

/// Each reward of a block that the filter admits is collected.
pub(crate) proof fn lemma_collected_contains(
    epoch: u64,
    slot: u64,
    filter: RewardFilter,
    rewards: Seq<Reward>,
    addresses: Seq<Option<Pubkey>>,
    n: nat,
    k: int,
) -> (m: int)
    requires
        collected(epoch, slot, filter, rewards, addresses, n) is Ok,
        0 <= k < n,
        filter.admits(rewards[k].reward_type),
    ensures
        ({
            let list = collected(epoch, slot, filter, rewards, addresses, n)->Ok_0;
            &&& 0 <= m < list.len()
            &&& addresses[k] == Some(list[m].0)
            &&& list[m].1 == inflation_reward(epoch, slot, rewards[k])
        }),
    decreases n,
{
    let init = collected(epoch, slot, filter, rewards, addresses, (n - 1) as nat)->Ok_0;
    if k < n - 1 {
        lemma_collected_contains(epoch, slot, filter, rewards, addresses, (n - 1) as nat, k)
    } else {
        init.len() as int
    }
}

/// Rewards are collected exactly where no admitted one has a malformed
/// address, and otherwise the first one that has is told.
pub(crate) proof fn lemma_collected_or_malformed(
    epoch: u64,
    slot: u64,
    filter: RewardFilter,
    rewards: Seq<Reward>,
    addresses: Seq<Option<Pubkey>>,
    n: nat,
)
    ensures
        match collected(epoch, slot, filter, rewards, addresses, n) {
            Ok(_) => forall|k: int|
                0 <= k < n && filter.admits((#[trigger] rewards[k]).reward_type)
                    ==> addresses[k] is Some,
            Err(i) => {
                &&& 0 <= i < n
                &&& filter.admits(rewards[i].reward_type)
                &&& addresses[i] is None
                &&& forall|k: int|
                    0 <= k < i && filter.admits((#[trigger] rewards[k]).reward_type)
                        ==> addresses[k] is Some
            },
        },
    decreases n,
{
    if n > 0 {
        lemma_collected_or_malformed(epoch, slot, filter, rewards, addresses, (n - 1) as nat);
    }
}

// ------------------------------------------------------- filling in

/// The rewards, with those of a list filled in for the addresses at `places`.
pub open spec fn filled(
    rewards: Seq<Option<RpcInflationReward>>,
    addresses: Seq<Pubkey>,
    places: Seq<usize>,
    list: Seq<(Pubkey, RpcInflationReward)>,
) -> Seq<Option<RpcInflationReward>> {
    Seq::new(
        rewards.len(),
        |i: int|
            if places.contains(i as usize) && reward_for(list, addresses[i]) is Some {
                reward_for(list, addresses[i])
            } else {
                rewards[i]
            },
    )
}

/// The places whose address has no reward in a list.
pub open spec fn still_missed(
    addresses: Seq<Pubkey>,
    places: Seq<usize>,
    list: Seq<(Pubkey, RpcInflationReward)>,
) -> Seq<usize>
    decreases places.len(),
{
    if places.len() == 0 {
        Seq::empty()
    } else {
        let init = still_missed(addresses, places.drop_last(), list);
        if reward_for(list, addresses[places.last() as int]) is None {
            init.push(places.last())
        } else {
            init
        }
    }
}

/// Fills in the rewards of a list for the addresses at `places`, and returns
/// the places whose address has none.
#[verifier::spinoff_prover]
pub fn fill(
    rewards: &mut Vec<Option<RpcInflationReward>>,
    addresses: &Vec<Pubkey>,
    places: &Vec<usize>,
    list: &RewardList,
) -> (r: Vec<usize>)
    requires
        old(rewards)@.len() == addresses@.len(),
        forall|i: int| 0 <= i < places@.len() ==> places@[i] < addresses@.len(),
    ensures
        final(rewards)@ == filled(old(rewards)@, addresses@, places@, list@),
        r@ == still_missed(addresses@, places@, list@),
{
    let ghost before = rewards@;
    let len: usize = addresses.len();
    let mut missed: Vec<usize> = Vec::new();
    let mut i: usize = 0;
    assert(places@.take(0) =~= Seq::<usize>::empty());
    assert(rewards@ =~= filled(before, addresses@, places@.take(0), list@));
    while i < places.len()
        invariant
            i <= places.len(),
            before.len() == addresses@.len(),
            len == addresses@.len(),
            forall|i: int| 0 <= i < places@.len() ==> places@[i] < addresses@.len(),
            rewards@ == filled(before, addresses@, places@.take(i as int), list@),
            missed@ == still_missed(addresses@, places@.take(i as int), list@),
        decreases places.len() - i,
    {
        let place: usize = places[i];
        let ghost done = places@.take(i as int);
        let ghost next = places@.take(i + 1);
        let ghost known = rewards@;
        assert(next.drop_last() =~= done);
        assert(next.last() == place);
        assert forall|k: usize| next.contains(k) <==> done.contains(k) || k == place by {
            if done.contains(k) {
                let j = choose|j: int| 0 <= j < done.len() && done[j] == k;
                assert(next[j] == k);
            }
            if k == place {
                assert(next[i as int] == k);
            }
            if next.contains(k) {
                let j = choose|j: int| 0 <= j < next.len() && next[j] == k;
                if j < i {
                    assert(done[j] == k);
                }
            }
        }
        match find_reward(list, &addresses[place]) {
            Some(reward) => {
                rewards.set(place, Some(reward));
            },
            None => {
                missed.push(place);
            },
        }
        assert forall|k: int| 0 <= k < rewards@.len() implies rewards@[k] == filled(
            before,
            addresses@,
            next,
            list@,
        )[k] by {
            let at = k as usize;
            assert(k < len);
            assert(next.contains(at) <==> done.contains(at) || at == place);
            assert(known[k] == filled(before, addresses@, done, list@)[k]);
        }
        assert(rewards@ =~= filled(before, addresses@, next, list@));
        i = i + 1;
    }
    assert(places@.take(i as int) =~= places@);
    missed
}

/// Whether an address at one of `places` has no reward in a list.
pub fn is_any_missed(addresses: &Vec<Pubkey>, places: &Vec<usize>, list: &RewardList) -> (r: bool)
    requires
        forall|i: int| 0 <= i < places@.len() ==> places@[i] < addresses@.len(),
    ensures
        r == (still_missed(addresses@, places@, list@).len() > 0),
{
    let ghost missed = still_missed(addresses@, places@, list@);
    let mut i: usize = 0;
    while i < places.len()
        invariant
            i <= places.len(),
            missed == still_missed(addresses@, places@, list@),
            forall|i: int| 0 <= i < places@.len() ==> places@[i] < addresses@.len(),
            forall|j: int|
                0 <= j < i ==> reward_for(
                    list@,
                    addresses@[(#[trigger] places@[j]) as int],
                ) is Some,
        decreases places.len() - i,
    {
        let place: usize = places[i];
        if find_reward(list, &addresses[place]).is_none() {
            proof {
                law_missed_places_have_no_reward(addresses@, places@, list@, place);
                assert(missed.contains(place));
            }
            return true;
        }
        i = i + 1;
    }
    proof {
        if missed.len() > 0 {
            law_missed_places_have_no_reward(addresses@, places@, list@, missed[0]);
            assert(missed.contains(missed[0]));
            let j = choose|j: int| 0 <= j < places@.len() && places@[j] == missed[0];
            assert(reward_for(list@, addresses@[places@[j] as int]) is Some);
        }
    }
    false
}

/// Places that are missed after a list was filled in were missed before, and
/// their addresses have no reward in the list.
#[verifier::spinoff_prover]
pub proof fn law_missed_places_have_no_reward(
    addresses: Seq<Pubkey>,
    places: Seq<usize>,
    list: Seq<(Pubkey, RpcInflationReward)>,
    place: usize,
)
    ensures
        still_missed(addresses, places, list).contains(place) <==> places.contains(place)
            && reward_for(list, addresses[place as int]) is None,
    decreases places.len(),
{
    let all = still_missed(addresses, places, list);
    if places.len() > 0 {
        let rest = places.drop_last();
        let init = still_missed(addresses, rest, list);
        law_missed_places_have_no_reward(addresses, rest, list, place);
        if places.contains(place) {
            let i = choose|i: int| 0 <= i < places.len() && places[i] == place;
            if i < rest.len() {
                assert(rest[i] == place);
            }
        }
        if rest.contains(place) {
            let i = choose|i: int| 0 <= i < rest.len() && rest[i] == place;
            assert(places[i] == place);
        }
        if init.contains(place) {
            let i = choose|i: int| 0 <= i < init.len() && init[i] == place;
            assert(all[i] == place);
        }
        if all.contains(place) {
            let i = choose|i: int| 0 <= i < all.len() && all[i] == place;
            if i < init.len() {
                assert(init[i] == place);
            } else {
                assert(places[places.len() - 1] == place);
            }
        }
        if places.last() == place && reward_for(list, addresses[place as int]) is None {
            assert(all[init.len() as int] == place);
        }
    }
}

} // verus!
