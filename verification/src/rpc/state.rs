//! What the requests share: the configuration, the other nodes that may be
//! asked, and the slots that are stored.

use crate::rpc::jsonrpc::{InvalidParams, RpcCustomError};
use vstd::prelude::*;

verus! {

/// How far the cluster has to agree on a slot.
#[derive(Debug, Clone, Copy, PartialEq, Eq, Structural)]
pub enum Commitment {
    Processed,
    Confirmed,
    Finalized,
}

impl Commitment {
    /// Whether at least a supermajority has voted.
    pub open spec fn at_least_confirmed(self) -> bool {
        self != Commitment::Processed
    }
}

/// The commitment of a request: `Finalized` where it names none.
pub open spec fn commitment_or_default(commitment: Option<Commitment>) -> Commitment {
    match commitment {
        Some(commitment) => commitment,
        None => Commitment::Finalized,
    }
}

/// The commitment of a request: `Finalized` where it names none.
pub fn unwrap_commitment(commitment: Option<Commitment>) -> (r: Commitment)
    ensures
        r == commitment_or_default(commitment),
{
    match commitment {
        Some(commitment) => commitment,
        None => Commitment::Finalized,
    }
}

/// Refuses a commitment below `Confirmed`.
pub fn check_is_at_least_confirmed(commitment: Commitment) -> (r: Result<(), InvalidParams>)
    ensures
        r == (if commitment.at_least_confirmed() {
            Ok(())
        } else {
            Err(InvalidParams::CommitmentBelowConfirmed)
        }),
{
    match commitment {
        Commitment::Processed => Err(InvalidParams::CommitmentBelowConfirmed),
        _ => Ok(()),
    }
}

/// The slots that are stored, as they stand at some moment.
#[derive(Debug, Clone, Copy, PartialEq, Eq, Structural)]
pub struct StoredSlots {
    pub first_available: u64,
    pub processed: u64,
    pub confirmed: u64,
    pub finalized: u64,
}

impl StoredSlots {
    /// The newest slot with a commitment.
    pub open spec fn tip(self, commitment: Commitment) -> u64 {
        match commitment {
            Commitment::Processed => self.processed,
            Commitment::Confirmed => self.confirmed,
            Commitment::Finalized => self.finalized,
        }
    }

    /// The newest slot with a commitment.
    pub fn load(&self, commitment: Commitment) -> (r: u64)
        ensures
            r == self.tip(commitment),
    {
        match commitment {
            Commitment::Processed => self.processed,
            Commitment::Confirmed => self.confirmed,
            Commitment::Finalized => self.finalized,
        }
    }
}

/// What comes of a request that asks for a node which has reached a slot: the
/// slot that the node has reached, where the request asks for one.
pub open spec fn context_checked(
    min_context_slot: Option<u64>,
    commitment: Commitment,
    slots: StoredSlots,
) -> Result<Option<u64>, RpcCustomError> {
    match min_context_slot {
        None => Ok(None),
        Some(min) => {
            let context_slot = slots.tip(commitment);
            if context_slot < min {
                Err(RpcCustomError::MinContextSlotNotReached { context_slot })
            } else {
                Ok(Some(context_slot))
            }
        },
    }
}

/// Refuses a request that asks for a node which has reached a slot, where this
/// node has not.
pub fn min_context_check(
    min_context_slot: Option<u64>,
    commitment: Commitment,
    slots: &StoredSlots,
) -> (r: Result<Option<u64>, RpcCustomError>)
    ensures
        r == context_checked(min_context_slot, commitment, *slots),
{
    match min_context_slot {
        None => Ok(None),
        Some(min) => {
            let context_slot: u64 = slots.load(commitment);
            if context_slot < min {
                Err(RpcCustomError::MinContextSlotNotReached { context_slot })
            } else {
                Ok(Some(context_slot))
            }
        },
    }
}

// ------------------------------------------------------- calls

/// The methods that can be served, or asked of another node.
#[derive(Debug, Clone, Copy, PartialEq, Eq, Structural)]
pub enum ConfigRpcCallJson {
    GetBlock,
    GetBlockHeight,
    GetBlocks,
    GetBlocksWithLimit,
    GetBlockTime,
    GetClusterNodes,
    GetFirstAvailableBlock,
    GetHealth,
    GetInflationReward,
    GetLatestBlockhash,
    GetLeaderSchedule,
    GetRecentPrioritizationFees,
    GetSignaturesForAddress,
    GetSignatureStatuses,
    GetSlot,
    GetTransaction,
    GetTransactionsForAddress,
    GetVersion,
    IsBlockhashValid,
}

impl ConfigRpcCallJson {
    /// The name that a request calls the method by.
    pub open spec fn name(self) -> Seq<char> {
        match self {
            ConfigRpcCallJson::GetBlock => "getBlock"@,
            ConfigRpcCallJson::GetBlockHeight => "getBlockHeight"@,
            ConfigRpcCallJson::GetBlocks => "getBlocks"@,
            ConfigRpcCallJson::GetBlocksWithLimit => "getBlocksWithLimit"@,
            ConfigRpcCallJson::GetBlockTime => "getBlockTime"@,
            ConfigRpcCallJson::GetClusterNodes => "getClusterNodes"@,
            ConfigRpcCallJson::GetFirstAvailableBlock => "getFirstAvailableBlock"@,
            ConfigRpcCallJson::GetHealth => "getHealth"@,
            ConfigRpcCallJson::GetInflationReward => "getInflationReward"@,
            ConfigRpcCallJson::GetLatestBlockhash => "getLatestBlockhash"@,
            ConfigRpcCallJson::GetLeaderSchedule => "getLeaderSchedule"@,
            ConfigRpcCallJson::GetRecentPrioritizationFees => "getRecentPrioritizationFees"@,
            ConfigRpcCallJson::GetSignaturesForAddress => "getSignaturesForAddress"@,
            ConfigRpcCallJson::GetSignatureStatuses => "getSignatureStatuses"@,
            ConfigRpcCallJson::GetSlot => "getSlot"@,
            ConfigRpcCallJson::GetTransaction => "getTransaction"@,
            ConfigRpcCallJson::GetTransactionsForAddress => "getTransactionsForAddress"@,
            ConfigRpcCallJson::GetVersion => "getVersion"@,
            ConfigRpcCallJson::IsBlockhashValid => "isBlockhashValid"@,
        }
    }

    /// The name that a request calls the method by.
    pub fn method(&self) -> (r: &'static str)
        ensures
            r@ == self.name(),
    {
        match self {
            ConfigRpcCallJson::GetBlock => "getBlock",
            ConfigRpcCallJson::GetBlockHeight => "getBlockHeight",
            ConfigRpcCallJson::GetBlocks => "getBlocks",
            ConfigRpcCallJson::GetBlocksWithLimit => "getBlocksWithLimit",
            ConfigRpcCallJson::GetBlockTime => "getBlockTime",
            ConfigRpcCallJson::GetClusterNodes => "getClusterNodes",
            ConfigRpcCallJson::GetFirstAvailableBlock => "getFirstAvailableBlock",
            ConfigRpcCallJson::GetHealth => "getHealth",
            ConfigRpcCallJson::GetInflationReward => "getInflationReward",
            ConfigRpcCallJson::GetLatestBlockhash => "getLatestBlockhash",
            ConfigRpcCallJson::GetLeaderSchedule => "getLeaderSchedule",
            ConfigRpcCallJson::GetRecentPrioritizationFees => "getRecentPrioritizationFees",
            ConfigRpcCallJson::GetSignaturesForAddress => "getSignaturesForAddress",
            ConfigRpcCallJson::GetSignatureStatuses => "getSignatureStatuses",
            ConfigRpcCallJson::GetSlot => "getSlot",
            ConfigRpcCallJson::GetTransaction => "getTransaction",
            ConfigRpcCallJson::GetTransactionsForAddress => "getTransactionsForAddress",
            ConfigRpcCallJson::GetVersion => "getVersion",
            ConfigRpcCallJson::IsBlockhashValid => "isBlockhashValid",
        }
    }
}

/// Whether `call` is one of `calls`.
fn contains_call(calls: &Vec<ConfigRpcCallJson>, call: ConfigRpcCallJson) -> (r: bool)
    ensures
        r == calls@.contains(call),
{
    let mut i: usize = 0;
    while i < calls.len()
        invariant
            i <= calls.len(),
            forall|j: int| 0 <= j < i ==> calls@[j] != call,
        decreases calls.len() - i,
    {
        if calls[i] == call {
            return true;
        }
        i = i + 1;
    }
    false
}

// ------------------------------------------------------- other nodes

/// Another node, and the methods that it may be asked.
#[derive(Debug)]
pub struct Upstream {
    pub calls: Vec<ConfigRpcCallJson>,
}

impl Upstream {
    /// Whether the node may be asked a method.
    pub open spec fn supports(self, call: ConfigRpcCallJson) -> bool {
        self.calls@.contains(call)
    }

    /// Whether the node may be asked a method.
    pub fn is_supported(&self, call: ConfigRpcCallJson) -> (r: bool)
        ensures
            r == self.supports(call),
    {
        contains_call(&self.calls, call)
    }
}

/// The first node from the `i`th on that may be asked a method.
pub open spec fn first_supporting(upstreams: Seq<Upstream>, call: ConfigRpcCallJson, i: nat) -> Option<usize>
    decreases upstreams.len() - i,
{
    if i >= upstreams.len() {
        None
    } else if upstreams[i as int].supports(call) {
        Some(i as usize)
    } else {
        first_supporting(upstreams, call, i + 1)
    }
}

/// The first of the nodes that may be asked a method.
fn find_supporting(upstreams: &Vec<Upstream>, call: ConfigRpcCallJson) -> (r: Option<usize>)
    ensures
        r == first_supporting(upstreams@, call, 0),
{
    let mut i: usize = 0;
    while i < upstreams.len()
        invariant
            i <= upstreams.len(),
            first_supporting(upstreams@, call, 0) == first_supporting(upstreams@, call, i as nat),
        decreases upstreams.len() - i,
    {
        if upstreams[i].is_supported(call) {
            return Some(i);
        }
        i = i + 1;
    }
    None
}

/// A node is found exactly where one may be asked, and it is the first one.
pub proof fn law_first_supporting(upstreams: Seq<Upstream>, call: ConfigRpcCallJson, i: nat)
    requires
        upstreams.len() <= usize::MAX,
    ensures
        first_supporting(upstreams, call, i) matches Some(k) ==> i <= k < upstreams.len()
            && upstreams[k as int].supports(call)
            && forall|j: int| i <= j < k ==> !(#[trigger] upstreams[j]).supports(call),
        first_supporting(upstreams, call, i) is None ==> forall|j: int|
            i <= j < upstreams.len() ==> !(#[trigger] upstreams[j]).supports(call),
    decreases upstreams.len() - i,
{
    if i < upstreams.len() && !upstreams[i as int].supports(call) {
        law_first_supporting(upstreams, call, i + 1);
    }
}

// ------------------------------------------------------- the configuration

/// The part of the configuration that the requests depend on.
#[derive(Debug)]
pub struct ConfigRpc {
    /// The methods to serve.
    pub calls_jsonrpc: Vec<ConfigRpcCallJson>,
    /// The other nodes that may be asked.
    pub upstreams: Vec<Upstream>,
    pub gsfa_limit: usize,
    pub gtfa_limit_signatures: usize,
    pub gtfa_limit_full: usize,
    pub gss_transaction_history: bool,
    pub grpf_percentile: bool,
    pub health_check_slot_distance: u64,
    /// Whether there is a node to ask for the newest slot of the cluster.
    pub health_check_rpc: bool,
}

/// Why a configuration is refused.
#[derive(Debug, Clone, Copy, PartialEq, Eq, Structural)]
pub enum ConfigError {
    /// A method without a local source is served, and no node may be asked it.
    UpstreamMissing,
}

impl ConfigError {
    /// The message that tells the operator why the configuration is refused.
    pub fn message(&self) -> (r: &'static str)
        ensures
            r@ == "at least one upstream should support `getClusterNodes` and `getLeaderSchedule`"@,
    {
        "at least one upstream should support `getClusterNodes` and `getLeaderSchedule`"
    }
}

impl ConfigRpc {
    /// Whether a method is served.
    pub open spec fn serves(self, call: ConfigRpcCallJson) -> bool {
        self.calls_jsonrpc@.contains(call)
    }

    /// Whether some node may be asked a method.
    pub open spec fn has_upstream(self, call: ConfigRpcCallJson) -> bool {
        first_supporting(self.upstreams@, call, 0) is Some
    }

    /// Whether each method that has no local source can be served: as soon as
    /// one of the two is served, there is a node for either.
    pub open spec fn accepted(self) -> bool {
        self.serves(ConfigRpcCallJson::GetClusterNodes) || self.serves(
            ConfigRpcCallJson::GetLeaderSchedule,
        ) ==> self.has_upstream(ConfigRpcCallJson::GetClusterNodes) && self.has_upstream(
            ConfigRpcCallJson::GetLeaderSchedule,
        )
    }
}

/// What the requests share.
#[derive(Debug)]
pub struct State {
    pub gsfa_limit: usize,
    pub gtfa_limit_signatures: usize,
    pub gtfa_limit_full: usize,
    pub gss_transaction_history: bool,
    pub grpf_percentile: bool,
    pub upstreams: Vec<Upstream>,
    pub health_check_slot_distance: u64,
}

impl State {
    /// The state for a configuration.
    pub open spec fn of(config: ConfigRpc) -> State {
        State {
            gsfa_limit: config.gsfa_limit,
            gtfa_limit_signatures: config.gtfa_limit_signatures,
            gtfa_limit_full: config.gtfa_limit_full,
            gss_transaction_history: config.gss_transaction_history,
            grpf_percentile: config.grpf_percentile,
            upstreams: config.upstreams,
            health_check_slot_distance: config.health_check_slot_distance,
        }
    }

    /// The node that a method is asked of.
    pub open spec fn upstream(self, call: ConfigRpcCallJson) -> Option<usize> {
        first_supporting(self.upstreams@, call, 0)
    }

    /// The node that a method is asked of, unless the request forbids it.
    pub open spec fn allowed_upstream(
        self,
        upstream_disabled: bool,
        call: ConfigRpcCallJson,
    ) -> Option<usize> {
        if upstream_disabled {
            None
        } else {
            self.upstream(call)
        }
    }

    /// The state for a configuration, which is refused where a method without
    /// a local source cannot be served.
    pub fn new(config: ConfigRpc) -> (r: Result<State, ConfigError>)
        ensures
            r == (if config.accepted() {
                Ok(State::of(config))
            } else {
                Err(ConfigError::UpstreamMissing)
            }),
    {
        if contains_call(&config.calls_jsonrpc, ConfigRpcCallJson::GetClusterNodes)
            || contains_call(&config.calls_jsonrpc, ConfigRpcCallJson::GetLeaderSchedule) {
            if !(find_supporting(&config.upstreams, ConfigRpcCallJson::GetClusterNodes).is_some()
                && find_supporting(
                &config.upstreams,
                ConfigRpcCallJson::GetLeaderSchedule,
            ).is_some()) {
                return Err(ConfigError::UpstreamMissing);
            }
        }
        Ok(
            State {
                gsfa_limit: config.gsfa_limit,
                gtfa_limit_signatures: config.gtfa_limit_signatures,
                gtfa_limit_full: config.gtfa_limit_full,
                gss_transaction_history: config.gss_transaction_history,
                grpf_percentile: config.grpf_percentile,
                upstreams: config.upstreams,
                health_check_slot_distance: config.health_check_slot_distance,
            },
        )
    }

    /// The node that a method is asked of.
    pub fn get_upstream(&self, call: ConfigRpcCallJson) -> (r: Option<usize>)
        ensures
            r == self.upstream(call),
    {
        find_supporting(&self.upstreams, call)
    }

    /// The node that a method is asked of, unless the request forbids it.
    pub fn get_allowed_upstream(&self, upstream_disabled: bool, call: ConfigRpcCallJson) -> (r: Option<usize>)
        ensures
            r == self.allowed_upstream(upstream_disabled, call),
    {
        if upstream_disabled {
            None
        } else {
            self.get_upstream(call)
        }
    }
}

/// A method without a local source that is served has a node to be asked of.
pub proof fn law_served_methods_have_an_upstream(config: ConfigRpc, call: ConfigRpcCallJson)
    requires
        config.accepted(),
        config.serves(call),
        call == ConfigRpcCallJson::GetClusterNodes || call == ConfigRpcCallJson::GetLeaderSchedule,
    ensures
        State::of(config).upstream(call) is Some,
{
}

// ------------------------------------------------------- the request processor

/// All methods, in the order in which they are registered.
pub open spec fn all_calls() -> Seq<ConfigRpcCallJson> {
    seq![
        ConfigRpcCallJson::GetBlock,
        ConfigRpcCallJson::GetBlockHeight,
        ConfigRpcCallJson::GetBlocks,
        ConfigRpcCallJson::GetBlocksWithLimit,
        ConfigRpcCallJson::GetBlockTime,
        ConfigRpcCallJson::GetClusterNodes,
        ConfigRpcCallJson::GetFirstAvailableBlock,
        ConfigRpcCallJson::GetHealth,
        ConfigRpcCallJson::GetInflationReward,
        ConfigRpcCallJson::GetLatestBlockhash,
        ConfigRpcCallJson::GetLeaderSchedule,
        ConfigRpcCallJson::GetRecentPrioritizationFees,
        ConfigRpcCallJson::GetSignaturesForAddress,
        ConfigRpcCallJson::GetSignatureStatuses,
        ConfigRpcCallJson::GetSlot,
        ConfigRpcCallJson::GetTransaction,
        ConfigRpcCallJson::GetTransactionsForAddress,
        ConfigRpcCallJson::GetVersion,
        ConfigRpcCallJson::IsBlockhashValid,
    ]
}

/// The methods of `calls` that are served, in their order.
pub open spec fn served(calls: Seq<ConfigRpcCallJson>, config: ConfigRpc) -> Seq<ConfigRpcCallJson>
    decreases calls.len(),
{
    if calls.len() == 0 {
        Seq::empty()
    } else {
        let init = served(calls.drop_last(), config);
        if config.serves(calls.last()) {
            init.push(calls.last())
        } else {
            init
        }
    }
}

/// What is set up to process requests: the methods to register, the state
/// that they share, and whether the newest slot of the cluster is polled.
#[derive(Debug)]
pub struct RequestProcessor {
    pub handlers: Vec<ConfigRpcCallJson>,
    pub state: State,
    pub polls_cluster_slot: bool,
}

/// Sets up the processing of requests: every method that the configuration
/// names is registered, and no other.
pub fn create_request_processor(config: ConfigRpc) -> (r: Result<RequestProcessor, ConfigError>)
    ensures
        r is Ok <==> config.accepted(),
        r matches Err(error) ==> error == ConfigError::UpstreamMissing,
        r matches Ok(processor) ==> {
            &&& processor.handlers@ == served(all_calls(), config)
            &&& processor.state == State::of(config)
            &&& processor.polls_cluster_slot == (config.serves(ConfigRpcCallJson::GetHealth)
                && config.health_check_rpc)
        },
{
    let polls_cluster_slot: bool = contains_call(
        &config.calls_jsonrpc,
        ConfigRpcCallJson::GetHealth,
    ) && config.health_check_rpc;
    let calls: [ConfigRpcCallJson; 19] = [
        ConfigRpcCallJson::GetBlock,
        ConfigRpcCallJson::GetBlockHeight,
        ConfigRpcCallJson::GetBlocks,
        ConfigRpcCallJson::GetBlocksWithLimit,
        ConfigRpcCallJson::GetBlockTime,
        ConfigRpcCallJson::GetClusterNodes,
        ConfigRpcCallJson::GetFirstAvailableBlock,
        ConfigRpcCallJson::GetHealth,
        ConfigRpcCallJson::GetInflationReward,
        ConfigRpcCallJson::GetLatestBlockhash,
        ConfigRpcCallJson::GetLeaderSchedule,
        ConfigRpcCallJson::GetRecentPrioritizationFees,
        ConfigRpcCallJson::GetSignaturesForAddress,
        ConfigRpcCallJson::GetSignatureStatuses,
        ConfigRpcCallJson::GetSlot,
        ConfigRpcCallJson::GetTransaction,
        ConfigRpcCallJson::GetTransactionsForAddress,
        ConfigRpcCallJson::GetVersion,
        ConfigRpcCallJson::IsBlockhashValid,
    ];
    let mut handlers: Vec<ConfigRpcCallJson> = Vec::new();
    let mut i: usize = 0;
    assert(calls@ =~= all_calls());
    while i < 19
        invariant
            i <= 19,
            calls@ == all_calls(),
            handlers@ == served(all_calls().take(i as int), config),
        decreases 19 - i,
    {
        assert(all_calls().take(i + 1).drop_last() =~= all_calls().take(i as int));
        if contains_call(&config.calls_jsonrpc, calls[i]) {
            handlers.push(calls[i]);
        }
        i = i + 1;
    }
    assert(all_calls().take(19) =~= all_calls());
    match State::new(config) {
        Ok(state) => Ok(RequestProcessor { handlers, state, polls_cluster_slot }),
        Err(error) => Err(error),
    }
}

/// The methods that are served are registered, and no others.
pub proof fn law_registered_exactly_the_served(
    calls: Seq<ConfigRpcCallJson>,
    config: ConfigRpc,
    call: ConfigRpcCallJson,
)
    ensures
        served(calls, config).contains(call) <==> calls.contains(call) && config.serves(call),
    decreases calls.len(),
{
    let all = served(calls, config);
    if calls.len() > 0 {
        let rest = calls.drop_last();
        let init = served(rest, config);
        law_registered_exactly_the_served(rest, config, call);
        assert(calls =~= rest.push(calls.last()));
        if calls.contains(call) {
            let i = choose|i: int| 0 <= i < calls.len() && calls[i] == call;
            if i < rest.len() {
                assert(rest[i] == call);
            }
        }
        if rest.contains(call) {
            let i = choose|i: int| 0 <= i < rest.len() && rest[i] == call;
            assert(calls[i] == call);
        }
        if config.serves(calls.last()) {
            if init.contains(call) {
                let i = choose|i: int| 0 <= i < init.len() && init[i] == call;
                assert(all[i] == call);
            }
            assert(all[init.len() as int] == calls.last());
            if all.contains(call) {
                let i = choose|i: int| 0 <= i < all.len() && all[i] == call;
                if i < init.len() {
                    assert(init[i] == call);
                } else {
                    assert(calls[calls.len() - 1] == call);
                }
            }
        }
    }
}

/// No method is registered twice, where none is listed twice.
proof fn lemma_served_distinct(calls: Seq<ConfigRpcCallJson>, config: ConfigRpc)
    requires
        calls.no_duplicates(),
    ensures
        served(calls, config).no_duplicates(),
    decreases calls.len(),
{
    if calls.len() > 0 {
        let rest = calls.drop_last();
        let init = served(rest, config);
        lemma_served_distinct(rest, config);
        law_registered_exactly_the_served(rest, config, calls.last());
        if rest.contains(calls.last()) {
            let i = choose|i: int| 0 <= i < rest.len() && rest[i] == calls.last();
            assert(calls[i] == calls[calls.len() - 1]);
        }
        let all = served(calls, config);
        assert forall|i: int, j: int| 0 <= i < j < all.len() implies all[i] != all[j] by {
            if j == init.len() {
                assert(init.contains(init[i]));
            }
        }
    }
}

/// No method is registered twice.
pub(crate) proof fn lemma_served_once(calls: Seq<ConfigRpcCallJson>, config: ConfigRpc)
    requires
        calls == all_calls(),
    ensures
        served(calls, config).no_duplicates(),
{
    assert(calls.no_duplicates());
    lemma_served_distinct(calls, config);
}

/// Every method is one of all methods.
pub proof fn law_all_calls_complete(call: ConfigRpcCallJson)
    ensures
        all_calls().contains(call),
{
    let calls = all_calls();
    let i: int = match call {
        ConfigRpcCallJson::GetBlock => 0,
        ConfigRpcCallJson::GetBlockHeight => 1,
        ConfigRpcCallJson::GetBlocks => 2,
        ConfigRpcCallJson::GetBlocksWithLimit => 3,
        ConfigRpcCallJson::GetBlockTime => 4,
        ConfigRpcCallJson::GetClusterNodes => 5,
        ConfigRpcCallJson::GetFirstAvailableBlock => 6,
        ConfigRpcCallJson::GetHealth => 7,
        ConfigRpcCallJson::GetInflationReward => 8,
        ConfigRpcCallJson::GetLatestBlockhash => 9,
        ConfigRpcCallJson::GetLeaderSchedule => 10,
        ConfigRpcCallJson::GetRecentPrioritizationFees => 11,
        ConfigRpcCallJson::GetSignaturesForAddress => 12,
        ConfigRpcCallJson::GetSignatureStatuses => 13,
        ConfigRpcCallJson::GetSlot => 14,
        ConfigRpcCallJson::GetTransaction => 15,
        ConfigRpcCallJson::GetTransactionsForAddress => 16,
        ConfigRpcCallJson::GetVersion => 17,
        ConfigRpcCallJson::IsBlockhashValid => 18,
    };
    assert(calls[i] == call);
}

/// The newest slot of the cluster that a poll found: zero, which stands for an
/// unknown slot, where the poll failed.
pub fn polled_slot(polled: Option<u64>) -> (r: u64)
    ensures
        r == (match polled {
            Some(slot) => slot,
            None => 0,
        }),
{
    match polled {
        Some(slot) => slot,
        None => 0,
    }
}

} // verus!
