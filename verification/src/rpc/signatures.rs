//! `getSignaturesForAddress` and `getSignatureStatuses`.

use crate::rpc::action::{Action, Failure, ReadRequest, Reason, UpstreamCall};
use crate::rpc::gtfa::filter;
use crate::rpc::jsonrpc::{self, InvalidParams, Payload, PayloadView, Reply, RpcCustomError};
use crate::rpc::keys::{self, ParseError, Pubkey, Signature};
use crate::rpc::records::{self, SignatureRecord, UpstreamReply};
use crate::rpc::state::{self, Commitment, ConfigRpcCallJson, State, StoredSlots};
use crate::text;
use vstd::prelude::*;

verus! {

// ------------------------------------------------------- getSignaturesForAddress

/// The options of a request for the signatures of an address.
#[derive(Debug)]
pub struct RpcSignaturesForAddressConfig {
    pub before: Option<String>,
    pub until: Option<String>,
    pub limit: Option<usize>,
    pub commitment: Option<Commitment>,
    pub min_context_slot: Option<u64>,
}

/// A request for the signatures of an address.
#[derive(Debug, Clone, Copy)]
pub struct RpcRequestSignaturesForAddress {
    pub upstream_disabled: bool,
    pub commitment: Commitment,
    pub address: Pubkey,
    pub before: Option<Signature>,
    pub until: Option<Signature>,
    pub limit: usize,
}

/// The number of signatures that are asked for.
pub open spec fn asked_limit(limit: Option<usize>, default_limit: usize) -> usize {
    match limit {
        Some(limit) => limit,
        None => default_limit,
    }
}

/// What comes of an address, two signatures and a limit, as they were read:
/// all of them, or the first error.
pub open spec fn checked_params(
    address: Result<Pubkey, ParseError>,
    before: Result<Option<Signature>, ParseError>,
    until: Result<Option<Signature>, ParseError>,
    limit: Option<usize>,
    default_limit: usize,
) -> Result<(Pubkey, Option<Signature>, Option<Signature>, usize), InvalidParams> {
    let asked = asked_limit(limit, default_limit);
    match (address, before, until) {
        (Err(error), _, _) => Err(InvalidParams::InvalidParam(error)),
        (_, Err(error), _) => Err(InvalidParams::InvalidParam(error)),
        (_, _, Err(error)) => Err(InvalidParams::InvalidParam(error)),
        (Ok(address), Ok(before), Ok(until)) => if asked == 0 || asked > default_limit {
            Err(InvalidParams::InvalidLimit { max: default_limit })
        } else {
            Ok((address, before, until, asked))
        },
    }
}

/// What comes of an address, two signatures and a limit, as they were read.
pub fn check_signatures_for_address_params(
    address: Result<Pubkey, ParseError>,
    before: Result<Option<Signature>, ParseError>,
    until: Result<Option<Signature>, ParseError>,
    limit: Option<usize>,
    default_limit: usize,
) -> (r: Result<(Pubkey, Option<Signature>, Option<Signature>, usize), InvalidParams>)
    ensures
        r == checked_params(address, before, until, limit, default_limit),
{
    match (address, before, until) {
        (Err(error), _, _) => Err(InvalidParams::InvalidParam(error)),
        (_, Err(error), _) => Err(InvalidParams::InvalidParam(error)),
        (_, _, Err(error)) => Err(InvalidParams::InvalidParam(error)),
        (Ok(address), Ok(before), Ok(until)) => {
            let limit: usize = match limit {
                Some(limit) => limit,
                None => default_limit,
            };
            if limit == 0 || limit > default_limit {
                Err(InvalidParams::InvalidLimit { max: default_limit })
            } else {
                Ok((address, before, until, limit))
            }
        },
    }
}

/// Reads an address, two signatures and a limit.
pub fn verify_and_parse_signatures_for_address_params(
    address: &str,
    before: &Option<String>,
    until: &Option<String>,
    limit: Option<usize>,
    default_limit: usize,
) -> (r: Result<(Pubkey, Option<Signature>, Option<Signature>, usize), InvalidParams>)
    ensures
        r == checked_params(
            keys::pubkey_of(address@),
            filter::optional_signature(*before),
            filter::optional_signature(*until),
            limit,
            default_limit,
        ),
{
    check_signatures_for_address_params(
        keys::parse_pubkey(address),
        filter::parse_optional(before),
        filter::parse_optional(until),
        limit,
        default_limit,
    )
}

/// The signatures that the storage has of an address.
#[derive(Debug)]
pub struct ReadResultSignaturesForAddress {
    pub signatures: Vec<SignatureRecord>,
    /// Whether there are no more.
    pub finished: bool,
    /// The signature behind which the storage looked.
    pub before: Option<Signature>,
}

impl RpcRequestSignaturesForAddress {
    /// What comes of the parameters, once the address and the signatures are
    /// read: a request, or the first thing that is wrong.
    pub open spec fn parsed(
        slots: StoredSlots,
        upstream_disabled: bool,
        checked: Result<(Pubkey, Option<Signature>, Option<Signature>, usize), InvalidParams>,
        commitment: Commitment,
        min_context_slot: Option<u64>,
    ) -> Result<RpcRequestSignaturesForAddress, Reply> {
        match checked {
            Err(error) => Err(Reply::InvalidParams(error)),
            Ok((address, before, until, limit)) => if !commitment.at_least_confirmed() {
                Err(Reply::InvalidParams(InvalidParams::CommitmentBelowConfirmed))
            } else {
                match state::context_checked(min_context_slot, commitment, slots) {
                    Err(error) => Err(Reply::Custom(error)),
                    Ok(_) => Ok(
                        RpcRequestSignaturesForAddress {
                            upstream_disabled,
                            commitment,
                            address,
                            before,
                            until,
                            limit,
                        },
                    ),
                }
            },
        }
    }

    /// The request that the parameters come to, once the address and the
    /// signatures are read.
    pub fn parse_with(
        slots: &StoredSlots,
        upstream_disabled: bool,
        checked: Result<(Pubkey, Option<Signature>, Option<Signature>, usize), InvalidParams>,
        commitment: Commitment,
        min_context_slot: Option<u64>,
    ) -> (r: Result<RpcRequestSignaturesForAddress, Reply>)
        ensures
            r == RpcRequestSignaturesForAddress::parsed(
                *slots,
                upstream_disabled,
                checked,
                commitment,
                min_context_slot,
            ),
    {
        match checked {
            Err(error) => Err(Reply::InvalidParams(error)),
            Ok((address, before, until, limit)) => {
                if let Err(error) = state::check_is_at_least_confirmed(commitment) {
                    return Err(Reply::InvalidParams(error));
                }
                if let Err(error) = state::min_context_check(min_context_slot, commitment, slots) {
                    return Err(Reply::Custom(error));
                }
                Ok(
                    RpcRequestSignaturesForAddress {
                        upstream_disabled,
                        commitment,
                        address,
                        before,
                        until,
                        limit,
                    },
                )
            },
        }
    }

    /// The request that the parameters come to.
    pub fn parse(
        state: &State,
        slots: &StoredSlots,
        upstream_disabled: bool,
        address: &str,
        config: &RpcSignaturesForAddressConfig,
    ) -> (r: Result<RpcRequestSignaturesForAddress, Reply>)
        ensures
            r == RpcRequestSignaturesForAddress::parsed(
                *slots,
                upstream_disabled,
                checked_params(
                    keys::pubkey_of(address@),
                    filter::optional_signature(config.before),
                    filter::optional_signature(config.until),
                    config.limit,
                    state.gsfa_limit,
                ),
                state::commitment_or_default(config.commitment),
                config.min_context_slot,
            ),
    {
        let checked = verify_and_parse_signatures_for_address_params(
            address,
            &config.before,
            &config.until,
            config.limit,
            state.gsfa_limit,
        );
        RpcRequestSignaturesForAddress::parse_with(
            slots,
            upstream_disabled,
            checked,
            state::unwrap_commitment(config.commitment),
            config.min_context_slot,
        )
    }

    /// What the request does first: asks the storage.
    pub fn start(&self) -> (r: Action)
        ensures
            r == Action::Read(
                ReadRequest::SignaturesForAddress {
                    commitment: self.commitment,
                    address: self.address,
                    before: self.before,
                    until: self.until,
                    limit: self.limit,
                },
            ),
    {
        Action::Read(
            ReadRequest::SignaturesForAddress {
                commitment: self.commitment,
                address: self.address,
                before: self.before,
                until: self.until,
                limit: self.limit,
            },
        )
    }

    /// The last of the signatures that the storage has, as it is read.
    pub fn last_signature(signatures: &Vec<SignatureRecord>) -> (r: Option<
        Result<Signature, ParseError>,
    >)
        ensures
            r == (if signatures@.len() == 0 {
                None
            } else {
                Some(keys::signature_of(signatures@.last().signature@))
            }),
    {
        if signatures.len() == 0 {
            None
        } else {
            Some(keys::parse_signature(signatures[signatures.len() - 1].signature.as_str()))
        }
    }

    /// The node that is asked for what the storage lacks: there is one, and
    /// the storage may have fewer signatures than there are.
    pub open spec fn asks_upstream(self, state: State, read: ReadResultSignaturesForAddress) -> Option<
        usize,
    > {
        if read.finished || read.signatures@.len() == self.limit {
            None
        } else {
            state.allowed_upstream(
                self.upstream_disabled,
                ConfigRpcCallJson::GetSignaturesForAddress,
            )
        }
    }

    /// Whether `r` is what the request does with the signatures that the
    /// storage has, given the last of them.
    pub open spec fn goes_on(
        self,
        state: State,
        read: ReadResultSignaturesForAddress,
        last: Option<Signature>,
        r: Action,
    ) -> bool {
        match self.asks_upstream(state, read) {
            Some(index) => r == (Action::Upstream {
                index,
                call: UpstreamCall::SignaturesForAddress {
                    address: self.address,
                    before: if read.signatures@.len() == 0 {
                        read.before
                    } else {
                        last
                    },
                    until: self.until,
                    limit: (self.limit - read.signatures@.len()) as usize,
                    commitment: self.commitment,
                },
                reason: Reason::IncompleteResults,
            }),
            None => {
                &&& r matches Action::Reply(Reply::Success(payload))
                &&& payload@ == PayloadView::Signatures(
                    records::jsons(records::record_views(read.signatures@)),
                )
            },
        }
    }

    /// What the request does with the signatures that the storage has, given
    /// the last of them: replies with them, or asks another node for as many
    /// more as are lacking, behind the last one.
    pub fn on_read(
        &self,
        state: &State,
        read: &ReadResultSignaturesForAddress,
        last: Option<Signature>,
    ) -> (r: Action)
        requires
            read.signatures@.len() <= self.limit,
        ensures
            self.goes_on(*state, *read, last, r),
    {
        let limit: usize = self.limit - read.signatures.len();
        if !read.finished && !self.upstream_disabled && limit > 0 {
            let before: Option<Signature> = if read.signatures.len() == 0 {
                read.before
            } else {
                last
            };
            if let Some(index) = state.get_upstream(ConfigRpcCallJson::GetSignaturesForAddress) {
                return Action::Upstream {
                    index,
                    call: UpstreamCall::SignaturesForAddress {
                        address: self.address,
                        before,
                        until: self.until,
                        limit,
                        commitment: self.commitment,
                    },
                    reason: Reason::IncompleteResults,
                };
            }
        }
        let mut list: Vec<String> = Vec::new();
        let ghost none = jsonrpc::texts(list@);
        records::append_jsons(&mut list, &read.signatures);
        assert(jsonrpc::texts(list@) =~= records::jsons(records::record_views(read.signatures@)));
        Action::Reply(Reply::Success(Payload::Signatures(list)))
    }

    /// What the request does with the signatures that the storage has: replies
    /// with them, or asks another node for as many more as are lacking, behind
    /// the last one. There is no result where another node is asked and the
    /// last one is malformed.
    pub fn on_storage(&self, state: &State, read: &ReadResultSignaturesForAddress) -> (r: Option<
        Action,
    >)
        requires
            read.signatures@.len() <= self.limit,
        ensures
            r is None <==> self.asks_upstream(*state, *read) is Some && read.signatures@.len() > 0
                && keys::signature_of(read.signatures@.last().signature@) is Err,
            r matches Some(action) ==> self.goes_on(
                *state,
                *read,
                match keys::signature_of(read.signatures@.last().signature@) {
                    Ok(signature) => Some(signature),
                    Err(_) => None,
                },
                action,
            ),
    {
        match RpcRequestSignaturesForAddress::last_signature(&read.signatures) {
            None => Some(self.on_read(state, read, None)),
            Some(Ok(signature)) => Some(self.on_read(state, read, Some(signature))),
            Some(Err(_)) => match self.on_read(state, read, None) {
                Action::Upstream { .. } => None,
                action => Some(action),
            },
        }
    }

    /// What the request does with what another node answered, as it was read:
    /// replies with the signatures that the storage has and then with those of
    /// the other node, or hands on its error.
    pub fn on_reply(
        local: &Vec<SignatureRecord>,
        bytes: Vec<u8>,
        reply: UpstreamReply<Vec<SignatureRecord>>,
    ) -> (r: Action)
        ensures
            match records::signatures_reply_view(reply) {
                UpstreamReply::Malformed => r == Action::Fail(Failure::UpstreamMalformed),
                UpstreamReply::Error => r == Action::Reply(Reply::Forward(bytes)),
                UpstreamReply::Success(more) => {
                    &&& r matches Action::Reply(Reply::Success(payload))
                    &&& payload@ == PayloadView::Signatures(
                        records::jsons(records::record_views(local@)) + records::jsons(more),
                    )
                },
            },
    {
        match reply {
            UpstreamReply::Malformed => Action::Fail(Failure::UpstreamMalformed),
            UpstreamReply::Error => Action::Reply(Reply::Forward(bytes)),
            UpstreamReply::Success(more) => {
                let mut list: Vec<String> = Vec::new();
                records::append_jsons(&mut list, local);
                records::append_jsons(&mut list, &more);
                assert(jsonrpc::texts(list@) =~= records::jsons(records::record_views(local@))
                    + records::jsons(records::record_views(more@)));
                Action::Reply(Reply::Success(Payload::Signatures(list)))
            },
        }
    }

    /// What the request does with what another node answered.
    pub fn on_upstream(local: &Vec<SignatureRecord>, answer: Result<Vec<u8>, String>) -> (r: Action)
        ensures
            match answer {
                Err(error) => r == Action::Fail(Failure::Upstream(error)),
                Ok(bytes) => match records::signatures_reply_of(bytes@) {
                    UpstreamReply::Malformed => r == Action::Fail(Failure::UpstreamMalformed),
                    UpstreamReply::Error => r == Action::Reply(Reply::Forward(bytes)),
                    UpstreamReply::Success(more) => {
                        &&& r matches Action::Reply(Reply::Success(payload))
                        &&& payload@ == PayloadView::Signatures(
                            records::jsons(records::record_views(local@)) + records::jsons(more),
                        )
                    },
                },
            },
    {
        match answer {
            Err(error) => Action::Fail(Failure::Upstream(error)),
            Ok(bytes) => {
                let reply = records::parse_signatures_reply(&bytes);
                RpcRequestSignaturesForAddress::on_reply(local, bytes, reply)
            },
        }
    }
}

/// A request that forbids it asks no other node for signatures, and neither
/// does one that lacks nothing.
pub proof fn law_disabled_signatures_ask_no_upstream(
    request: RpcRequestSignaturesForAddress,
    state: State,
    read: ReadResultSignaturesForAddress,
)
    requires
        request.upstream_disabled || read.finished || read.signatures@.len() == request.limit,
    ensures
        request.asks_upstream(state, read) is None,
{
}

// ------------------------------------------------------- getSignatureStatuses

/// The largest number of signatures whose statuses may be asked for.
pub const MAX_GET_SIGNATURE_STATUSES_QUERY_ITEMS: usize = 256;

/// A request for the statuses of signatures.
#[derive(Debug)]
pub struct RpcRequestSignatureStatuses {
    pub upstream_disabled: bool,
    pub signatures: Vec<Signature>,
    pub search_transaction_history: bool,
}

/// The number of gaps in a list.
pub open spec fn gaps(list: Seq<Option<String>>) -> nat
    decreases list.len(),
{
    if list.len() == 0 {
        0
    } else {
        gaps(list.drop_last()) + if list.last() is None {
            1nat
        } else {
            0nat
        }
    }
}

/// The signatures of the first `n` statuses that are gaps.
pub open spec fn missing(signatures: Seq<Signature>, statuses: Seq<Option<String>>, n: nat) -> Seq<
    Signature,
>
    decreases n,
{
    if n == 0 {
        Seq::empty()
    } else {
        let init = missing(signatures, statuses, (n - 1) as nat);
        if statuses[n - 1] is None {
            init.push(signatures[n - 1])
        } else {
            init
        }
    }
}

/// The number of signatures that come with a status.
pub open spec fn paired(signatures: Seq<Signature>, statuses: Seq<Option<String>>) -> nat {
    if signatures.len() <= statuses.len() {
        signatures.len()
    } else {
        statuses.len()
    }
}

/// The statuses, with the gaps filled in order.
pub open spec fn merged(statuses: Seq<Option<String>>, values: Seq<Option<String>>) -> Seq<
    Option<String>,
> {
    Seq::new(
        statuses.len(),
        |i: int|
            if statuses[i] is Some {
                statuses[i]
            } else {
                values[gaps(statuses.take(i)) as int]
            },
    )
}

/// There are no more gaps in the beginning of a list than in the list.
proof fn lemma_gaps_take(list: Seq<Option<String>>, i: int)
    requires
        0 <= i < list.len(),
    ensures
        gaps(list.take(i)) + if list[i] is None {
            1nat
        } else {
            0nat
        } <= gaps(list),
    decreases list.len(),
{
    if i + 1 == list.len() {
        assert(list.take(i) =~= list.drop_last());
    } else {
        lemma_gaps_take(list.drop_last(), i);
        assert(list.drop_last().take(i) =~= list.take(i));
    }
}

/// The status that another node gives for a missing signature fills the gap of
/// that signature.
pub proof fn law_gaps_are_filled_by_their_signatures(
    signatures: Seq<Signature>,
    statuses: Seq<Option<String>>,
    n: nat,
    i: int,
)
    requires
        n <= statuses.len(),
        n <= signatures.len(),
        0 <= i < n,
        statuses[i] is None,
    ensures
        missing(signatures, statuses, n).len() == gaps(statuses.take(n as int)),
        gaps(statuses.take(i)) < missing(signatures, statuses, n).len(),
        missing(signatures, statuses, n)[gaps(statuses.take(i)) as int] == signatures[i],
    decreases n,
{
    let m = (n - 1) as nat;
    lemma_missing_len(signatures, statuses, n);
    lemma_missing_len(signatures, statuses, m);
    if i < m {
        law_gaps_are_filled_by_their_signatures(signatures, statuses, m, i);
    }
}

/// As many signatures are missing as there are gaps.
proof fn lemma_missing_len(signatures: Seq<Signature>, statuses: Seq<Option<String>>, n: nat)
    requires
        n <= statuses.len(),
    ensures
        missing(signatures, statuses, n).len() == gaps(statuses.take(n as int)),
    decreases n,
{
    if n > 0 {
        lemma_missing_len(signatures, statuses, (n - 1) as nat);
        assert(statuses.take(n as int).drop_last() =~= statuses.take(n - 1));
    } else {
        assert(statuses.take(0) =~= Seq::<Option<String>>::empty());
    }
}

/// There are gaps exactly where a status is missing.
pub(crate) proof fn lemma_gaps_are_missing_statuses(list: Seq<Option<String>>)
    ensures
        gaps(list) > 0 <==> exists|i: int| 0 <= i < list.len() && (#[trigger] list[i]) is None,
    decreases list.len(),
{
    if list.len() > 0 {
        let init = list.drop_last();
        lemma_gaps_are_missing_statuses(init);
        if gaps(init) > 0 {
            let i = choose|i: int| 0 <= i < init.len() && (#[trigger] init[i]) is None;
            assert(list[i] is None);
        }
        if list.last() is None {
            assert(list[list.len() - 1] is None);
        }
        if exists|i: int| 0 <= i < list.len() && (#[trigger] list[i]) is None {
            let i = choose|i: int| 0 <= i < list.len() && (#[trigger] list[i]) is None;
            if i < init.len() {
                assert(init[i] is None);
            }
        }
    }
}

/// Every signature that is missing is that of a gap.
pub(crate) proof fn lemma_missing_source(
    signatures: Seq<Signature>,
    statuses: Seq<Option<String>>,
    n: nat,
    k: int,
) -> (i: int)
    requires
        n <= statuses.len(),
        0 <= k < missing(signatures, statuses, n).len(),
    ensures
        0 <= i < n,
        statuses[i] is None,
        missing(signatures, statuses, n)[k] == signatures[i],
    decreases n,
{
    let init = missing(signatures, statuses, (n - 1) as nat);
    if k < init.len() {
        lemma_missing_source(signatures, statuses, (n - 1) as nat, k)
    } else {
        n - 1
    }
}

impl RpcRequestSignatureStatuses {
    /// The request that the parameters come to, given what came of reading
    /// the signatures.
    pub fn parse_with(
        state: &State,
        upstream_disabled: bool,
        given: usize,
        signatures: Result<Vec<Signature>, ParseError>,
        search_transaction_history: Option<bool>,
    ) -> (r: Result<RpcRequestSignatureStatuses, Reply>)
        ensures
            ({
                let search = search_transaction_history == Some(true);
                r == if given > MAX_GET_SIGNATURE_STATUSES_QUERY_ITEMS {
                    Err(
                        Reply::InvalidParams(
                            InvalidParams::TooManyInputs {
                                max: MAX_GET_SIGNATURE_STATUSES_QUERY_ITEMS,
                            },
                        ),
                    )
                } else if let Err(error) = signatures {
                    Err(Reply::InvalidParams(InvalidParams::InvalidParam(error)))
                } else if search && !state.gss_transaction_history {
                    Err(Reply::Custom(RpcCustomError::TransactionHistoryNotAvailable))
                } else {
                    Ok(
                        RpcRequestSignatureStatuses {
                            upstream_disabled,
                            signatures: signatures->Ok_0,
                            search_transaction_history: search,
                        },
                    )
                }
            }),
    {
        if given > MAX_GET_SIGNATURE_STATUSES_QUERY_ITEMS {
            return Err(
                Reply::InvalidParams(
                    InvalidParams::TooManyInputs { max: MAX_GET_SIGNATURE_STATUSES_QUERY_ITEMS },
                ),
            );
        }
        let signatures: Vec<Signature> = match signatures {
            Ok(signatures) => signatures,
            Err(error) => {
                return Err(Reply::InvalidParams(InvalidParams::InvalidParam(error)));
            },
        };
        let search_transaction_history: bool = match search_transaction_history {
            Some(search) => search,
            None => false,
        };
        if search_transaction_history && !state.gss_transaction_history {
            return Err(Reply::Custom(RpcCustomError::TransactionHistoryNotAvailable));
        }
        Ok(
            RpcRequestSignatureStatuses {
                upstream_disabled,
                signatures,
                search_transaction_history,
            },
        )
    }

    /// The request that the parameters come to.
    pub fn parse(
        state: &State,
        upstream_disabled: bool,
        signature_strs: &Vec<String>,
        search_transaction_history: Option<bool>,
    ) -> (r: Result<RpcRequestSignatureStatuses, Reply>)
        ensures
            ({
                let search = search_transaction_history == Some(true);
                if signature_strs@.len() > MAX_GET_SIGNATURE_STATUSES_QUERY_ITEMS {
                    r == Err::<RpcRequestSignatureStatuses, Reply>(
                        Reply::InvalidParams(
                            InvalidParams::TooManyInputs {
                                max: MAX_GET_SIGNATURE_STATUSES_QUERY_ITEMS,
                            },
                        ),
                    )
                } else {
                    match keys::signatures_of(signature_strs@) {
                        Err(error) => r == Err::<RpcRequestSignatureStatuses, Reply>(
                            Reply::InvalidParams(InvalidParams::InvalidParam(error)),
                        ),
                        Ok(signatures) => if search && !state.gss_transaction_history {
                            r == Err::<RpcRequestSignatureStatuses, Reply>(
                                Reply::Custom(RpcCustomError::TransactionHistoryNotAvailable),
                            )
                        } else {
                            &&& r matches Ok(request)
                            &&& request.signatures@ == signatures
                            &&& request.upstream_disabled == upstream_disabled
                            &&& request.search_transaction_history == search
                        },
                    }
                }
            }),
    {
        RpcRequestSignatureStatuses::parse_with(
            state,
            upstream_disabled,
            signature_strs.len(),
            keys::verify_signatures(signature_strs),
            search_transaction_history,
        )
    }

    /// What the request does first: asks the storage.
    pub fn start(&self) -> (r: Action)
        ensures
            r matches Action::Read(
                ReadRequest::SignatureStatuses { signatures, search_transaction_history },
            ) && signatures@ == self.signatures@ && search_transaction_history
                == self.search_transaction_history,
    {
        let mut signatures: Vec<Signature> = Vec::new();
        let mut i: usize = 0;
        while i < self.signatures.len()
            invariant
                i <= self.signatures.len(),
                signatures@ == self.signatures@.take(i as int),
            decreases self.signatures.len() - i,
        {
            signatures.push(self.signatures[i]);
            i = i + 1;
        }
        assert(self.signatures@.take(i as int) =~= self.signatures@);
        Action::Read(
            ReadRequest::SignatureStatuses {
                signatures,
                search_transaction_history: self.search_transaction_history,
            },
        )
    }

    /// The node that is asked for the statuses that the storage lacks: the
    /// history is to be searched, there is a node, and there are gaps.
    pub open spec fn asks_upstream(self, state: State, statuses: Seq<Option<String>>) -> Option<
        usize,
    > {
        if self.search_transaction_history && gaps(statuses) > 0 {
            state.allowed_upstream(self.upstream_disabled, ConfigRpcCallJson::GetSignatureStatuses)
        } else {
            None
        }
    }

    /// What the request does with the statuses that the storage has: replies
    /// with them, or asks another node for those that are missing.
    pub fn on_read(&self, state: &State, slots: &StoredSlots, statuses: &Vec<Option<String>>) -> (r: Action)
        ensures
            match self.asks_upstream(*state, statuses@) {
                Some(node) => {
                    &&& r matches Action::Upstream { index, call, reason }
                    &&& index == node
                    &&& call matches UpstreamCall::SignatureStatuses { signatures }
                    &&& signatures@ == missing(
                        self.signatures@,
                        statuses@,
                        paired(self.signatures@, statuses@),
                    )
                    &&& reason == Reason::MissingStatus
                },
                None => {
                    &&& r matches Action::Reply(Reply::Success(payload))
                    &&& payload@ == (PayloadView::Statuses {
                        slot: slots.processed,
                        statuses: jsonrpc::optional_texts(statuses@),
                    })
                },
            },
    {
        if self.search_transaction_history && !self.upstream_disabled {
            if let Some(index) = state.get_upstream(ConfigRpcCallJson::GetSignatureStatuses) {
                if has_gap(statuses) {
                    return Action::Upstream {
                        index,
                        call: UpstreamCall::SignatureStatuses {
                            signatures: self.missing_signatures(statuses),
                        },
                        reason: Reason::MissingStatus,
                    };
                }
            }
        }
        let statuses: Vec<Option<String>> = copy_statuses(statuses);
        Action::Reply(Reply::Success(Payload::Statuses { slot: slots.processed, statuses }))
    }

    /// The signatures whose statuses the storage lacks.
    fn missing_signatures(&self, statuses: &Vec<Option<String>>) -> (r: Vec<Signature>)
        ensures
            r@ == missing(self.signatures@, statuses@, paired(self.signatures@, statuses@)),
    {
        let mut signatures: Vec<Signature> = Vec::new();
        let mut i: usize = 0;
        while i < self.signatures.len() && i < statuses.len()
            invariant
                i <= paired(self.signatures@, statuses@),
                signatures@ == missing(self.signatures@, statuses@, i as nat),
            decreases self.signatures.len() - i,
        {
            if statuses[i].is_none() {
                signatures.push(self.signatures[i]);
            }
            i = i + 1;
        }
        signatures
    }

    /// What the request does with the statuses that another node gave: fills
    /// the gaps with them, in order, and replies.
    pub fn on_statuses(slots: &StoredSlots, statuses: &Vec<Option<String>>, values: &Vec<Option<String>>) -> (r: Action)
        requires
            gaps(statuses@) <= values@.len(),
        ensures
            r matches Action::Reply(Reply::Success(payload)) && payload@ == (PayloadView::Statuses {
                slot: slots.processed,
                statuses: jsonrpc::optional_texts(merged(statuses@, values@)),
            }),
    {
        let mut all: Vec<Option<String>> = Vec::new();
        let len: usize = values.len();
        let mut index: usize = 0;
        let mut i: usize = 0;
        assert(statuses@.take(0) =~= Seq::<Option<String>>::empty());
        while i < statuses.len()
            invariant
                i <= statuses.len(),
                gaps(statuses@) <= len,
                len == values@.len(),
                index == gaps(statuses@.take(i as int)),
                all@.len() == i,
                forall|j: int| 0 <= j < i ==> #[trigger] all@[j] == merged(statuses@, values@)[j],
            decreases statuses.len() - i,
        {
            proof {
                lemma_gaps_take(statuses@, i as int);
                assert(statuses@.take(i + 1).drop_last() =~= statuses@.take(i as int));
            }
            if statuses[i].is_none() {
                all.push(text::copy_optional(&values[index]));
                index = index + 1;
            } else {
                all.push(text::copy_optional(&statuses[i]));
            }
            i = i + 1;
        }
        assert(all@ =~= merged(statuses@, values@));
        Action::Reply(Reply::Success(Payload::Statuses { slot: slots.processed, statuses: all }))
    }

    /// What the request does with what another node answered, as it was read.
    /// Nothing is returned where the node gave fewer statuses than were asked
    /// for.
    pub fn on_reply(
        slots: &StoredSlots,
        statuses: &Vec<Option<String>>,
        bytes: Vec<u8>,
        reply: UpstreamReply<Vec<Option<String>>>,
    ) -> (r: Option<Action>)
        ensures
            match reply {
                UpstreamReply::Malformed => r == Some(Action::Fail(Failure::UpstreamMalformed)),
                UpstreamReply::Error => r == Some(Action::Reply(Reply::Forward(bytes))),
                UpstreamReply::Success(values) => if gaps(statuses@) > values@.len() {
                    r is None
                } else {
                    &&& r matches Some(Action::Reply(Reply::Success(payload)))
                    &&& payload@ == (PayloadView::Statuses {
                        slot: slots.processed,
                        statuses: jsonrpc::optional_texts(merged(statuses@, values@)),
                    })
                },
            },
    {
        match reply {
            UpstreamReply::Malformed => Some(Action::Fail(Failure::UpstreamMalformed)),
            UpstreamReply::Error => Some(Action::Reply(Reply::Forward(bytes))),
            UpstreamReply::Success(values) => {
                if count_gaps(statuses) > values.len() {
                    None
                } else {
                    Some(RpcRequestSignatureStatuses::on_statuses(slots, statuses, &values))
                }
            },
        }
    }

    /// What the request does with what another node answered. Nothing is
    /// returned where the node gave fewer statuses than were asked for.
    pub fn on_upstream(
        slots: &StoredSlots,
        statuses: &Vec<Option<String>>,
        answer: Result<Vec<u8>, String>,
    ) -> (r: Option<Action>)
        ensures
            match answer {
                Err(error) => r == Some(Action::Fail(Failure::Upstream(error))),
                Ok(bytes) => match records::statuses_reply_of(bytes@) {
                    UpstreamReply::Malformed => r == Some(Action::Fail(Failure::UpstreamMalformed)),
                    UpstreamReply::Error => r == Some(Action::Reply(Reply::Forward(bytes))),
                    UpstreamReply::Success(values) => if gaps(statuses@) > values.len() {
                        r is None
                    } else {
                        &&& r matches Some(Action::Reply(Reply::Success(payload)))
                        &&& payload@ == (PayloadView::Statuses {
                            slot: slots.processed,
                            statuses: merged_texts(statuses@, values),
                        })
                    },
                },
            },
    {
        match answer {
            Err(error) => Some(Action::Fail(Failure::Upstream(error))),
            Ok(bytes) => {
                let reply = records::parse_statuses_reply(&bytes);
                proof {
                    if let UpstreamReply::Success(values) = &reply {
                        if gaps(statuses@) <= values@.len() {
                            lemma_merged_texts(statuses@, values@);
                        }
                    }
                }
                RpcRequestSignatureStatuses::on_reply(slots, statuses, bytes, reply)
            },
        }
    }
}

/// The texts of statuses, with the gaps filled in order.
pub open spec fn merged_texts(statuses: Seq<Option<String>>, values: Seq<Option<Seq<char>>>) -> Seq<
    Option<Seq<char>>,
> {
    Seq::new(
        statuses.len(),
        |i: int|
            match statuses[i] {
                Some(status) => Some(status@),
                None => values[gaps(statuses.take(i)) as int],
            },
    )
}

/// Filling the gaps and taking the texts comes to the same in either order.
proof fn lemma_merged_texts(statuses: Seq<Option<String>>, values: Seq<Option<String>>)
    requires
        gaps(statuses) <= values.len(),
    ensures
        jsonrpc::optional_texts(merged(statuses, values)) == merged_texts(
            statuses,
            jsonrpc::optional_texts(values),
        ),
{
    let a = jsonrpc::optional_texts(merged(statuses, values));
    let b = merged_texts(statuses, jsonrpc::optional_texts(values));
    assert forall|i: int| 0 <= i < statuses.len() implies a[i] == b[i] by {
        lemma_gaps_take(statuses, i);
    }
    assert(a =~= b);
}

/// The number of gaps in a list.
fn count_gaps(list: &Vec<Option<String>>) -> (r: usize)
    ensures
        r == gaps(list@),
{
    let mut count: usize = 0;
    let mut i: usize = 0;
    assert(list@.take(0) =~= Seq::<Option<String>>::empty());
    while i < list.len()
        invariant
            i <= list.len(),
            count <= i,
            count == gaps(list@.take(i as int)),
        decreases list.len() - i,
    {
        assert(list@.take(i + 1).drop_last() =~= list@.take(i as int));
        if list[i].is_none() {
            count = count + 1;
        }
        i = i + 1;
    }
    assert(list@.take(i as int) =~= list@);
    count
}

/// Whether there is a gap in a list.
fn has_gap(list: &Vec<Option<String>>) -> (r: bool)
    ensures
        r == (gaps(list@) > 0),
{
    count_gaps(list) > 0
}

/// Another copy of a list.
fn copy_statuses(list: &Vec<Option<String>>) -> (r: Vec<Option<String>>)
    ensures
        r@ == list@,
{
    let mut all: Vec<Option<String>> = Vec::new();
    let mut i: usize = 0;
    while i < list.len()
        invariant
            i <= list.len(),
            all@ == list@.take(i as int),
        decreases list.len() - i,
    {
        all.push(text::copy_optional(&list[i]));
        i = i + 1;
    }
    assert(list@.take(i as int) =~= list@);
    all
}

/// A request that forbids it asks no other node for statuses, and neither does
/// one that does not search the history, or that lacks nothing.
pub proof fn law_disabled_statuses_ask_no_upstream(
    request: RpcRequestSignatureStatuses,
    state: State,
    statuses: Seq<Option<String>>,
)
    requires
        request.upstream_disabled || !request.search_transaction_history || gaps(statuses) == 0,
    ensures
        request.asks_upstream(state, statuses) is None,
{
}

/// Statuses that the storage has are never replaced.
pub proof fn law_known_statuses_stay(
    statuses: Seq<Option<String>>,
    values: Seq<Option<String>>,
    i: int,
)
    requires
        0 <= i < statuses.len(),
        statuses[i] is Some,
    ensures
        merged(statuses, values)[i] == statuses[i],
{
}

} // verus!
