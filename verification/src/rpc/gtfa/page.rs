//! How a page is filled, batch by batch.

use crate::rpc::action::{self, Failure, Read, ReadRequest};
use crate::rpc::gtfa::filter::{
    self, GtfaCursor, GtfaSignatureFilter, GtfaSignaturePositionFilter, Position,
};
use crate::rpc::gtfa::request::{self, GtfaOptions, RpcRequestTransactionsForAddress};
use crate::rpc::keys::{Pubkey, Signature};
use crate::rpc::records::SignatureRecord;
use crate::rpc::state::State;
use vstd::prelude::*;

verus! {

// ------------------------------------------------------- what the storage delivers

/// A number of transactions of an address, in the order of the request.
#[derive(Debug)]
pub struct GtfaBatch {
    pub signatures: Vec<SignatureRecord>,
    /// The index of each transaction in its block.
    pub transaction_indices: Vec<u32>,
    /// What each transaction has to do with tokens of the address.
    pub token_owner_flags: Vec<u8>,
    /// Whether the storage has no more.
    pub finished: bool,
}

/// A transaction as the storage delivers it.
pub struct GtfaItem {
    pub record: SignatureRecord,
    pub index: u32,
    pub flags: u8,
}

impl GtfaItem {
    /// Where the transaction stands.
    pub open spec fn position(self) -> Position {
        (self.record.slot, self.index)
    }

    /// The transaction as it is listed.
    pub open spec fn entry(self) -> GtfaEntry {
        GtfaEntry { record: self.record, transaction_index: self.index as usize }
    }
}

impl GtfaBatch {
    /// The number of transactions that come with an index and with flags.
    pub open spec fn items_len(self) -> nat {
        let n = if self.transaction_indices@.len() <= self.token_owner_flags@.len() {
            self.transaction_indices@.len()
        } else {
            self.token_owner_flags@.len()
        };
        if self.signatures@.len() <= n {
            self.signatures@.len()
        } else {
            n
        }
    }

    /// The transactions that come with an index and with flags.
    pub open spec fn items(self) -> Seq<GtfaItem> {
        Seq::new(
            self.items_len(),
            |i: int|
                GtfaItem {
                    record: self.signatures@[i],
                    index: self.transaction_indices@[i],
                    flags: self.token_owner_flags@[i],
                },
        )
    }
}

// ------------------------------------------------------- what is listed

/// A transaction as it is listed.
#[derive(Debug)]
pub struct GtfaEntry {
    pub record: SignatureRecord,
    pub transaction_index: usize,
}

impl GtfaEntry {
    /// The cursor from which a page after this transaction goes on.
    pub open spec fn cursor(self) -> GtfaCursor {
        GtfaCursor { slot: self.record.slot, transaction_index: self.transaction_index }
    }
}

/// What decides which transactions are listed: the request, and the positions
/// of the signatures that it filters by.
pub struct Selection {
    pub request: RpcRequestTransactionsForAddress,
    pub positions: Option<GtfaSignaturePositionFilter>,
}

impl Selection {
    /// Whether a transaction is listed.
    pub open spec fn admits(self, item: GtfaItem) -> bool {
        &&& self.request.token_accounts.admits(item.flags)
        &&& self.request.filters matches Some(filters) ==> filters.admits(
            item.record.block_time,
            item.record.failed,
        )
        &&& self.positions matches Some(positions) ==> positions.admits(item.position())
    }

    /// The transactions that are listed, in their order.
    pub open spec fn admitted(self, items: Seq<GtfaItem>) -> Seq<GtfaEntry>
        decreases items.len(),
    {
        if items.len() == 0 {
            Seq::empty()
        } else {
            let init = self.admitted(items.drop_last());
            if self.admits(items.last()) {
                init.push(items.last().entry())
            } else {
                init
            }
        }
    }

    /// Where the scan of `items` from the `i`th on ends: behind the one that
    /// fills the `room` that is left, or behind the last one.
    pub open spec fn scan_end(self, items: Seq<GtfaItem>, room: nat, i: nat) -> nat
        decreases items.len() - i,
    {
        if i >= items.len() || room == 0 {
            i
        } else if self.admits(items[i as int]) {
            self.scan_end(items, (room - 1) as nat, i + 1)
        } else {
            self.scan_end(items, room, i + 1)
        }
    }

    /// The transactions of a batch that are listed where there is `room`.
    pub open spec fn listed(self, items: Seq<GtfaItem>, room: nat) -> Seq<GtfaEntry> {
        self.admitted(items.take(self.scan_end(items, room, 0) as int))
    }
}

/// A page as far as it is filled.
#[derive(Debug)]
pub struct GtfaPage {
    pub entries: Vec<GtfaEntry>,
    /// Behind which transaction the storage goes on.
    pub storage_cursor: Option<(u64, u32)>,
    /// The last transaction of the page.
    pub page_cursor: Option<GtfaCursor>,
    /// Whether the storage has no more.
    pub storage_finished: bool,
    /// Whether the last batch filled the page.
    pub reached_limit: bool,
}

impl GtfaPage {
    /// Whether a page holds no more than it may, and knows its last
    /// transaction.
    pub open spec fn wf(self, limit: usize) -> bool {
        &&& self.entries@.len() <= limit
        &&& self.page_cursor == if self.entries@.len() == 0 {
            None
        } else {
            Some(self.entries@.last().cursor())
        }
        &&& forall|i: int|
            0 <= i < self.entries@.len() ==> (#[trigger] self.entries@[i]).transaction_index
                <= u32::MAX
    }

    /// The cursor from which the next page goes on: none where the storage has
    /// no more and the page is not full, nor where the page is empty.
    pub open spec fn next_cursor(self) -> Option<GtfaCursor> {
        if self.storage_finished && !self.reached_limit {
            None
        } else {
            self.page_cursor
        }
    }
}

/// How many transactions are asked of the storage to fill a page that lacks
/// `remaining`: four times as many where some are filtered out, as far as the
/// configuration allows, but never less than what is lacking.
pub open spec fn batch_limit(request: RpcRequestTransactionsForAddress, state: State, remaining: nat) -> nat {
    if request.filters is Some {
        let more = if 4 * remaining <= state.gtfa_limit_signatures {
            4 * remaining
        } else {
            state.gtfa_limit_signatures as nat
        };
        if more >= remaining {
            more
        } else {
            remaining
        }
    } else {
        remaining
    }
}

// ------------------------------------------------------- laws of the selection

impl Selection {
    /// A scan stays among the items.
    pub proof fn lemma_scan_end(self, items: Seq<GtfaItem>, room: nat, i: nat)
        requires
            i <= items.len(),
        ensures
            i <= self.scan_end(items, room, i) <= items.len(),
        decreases items.len() - i,
    {
        if i < items.len() && room > 0 {
            if self.admits(items[i as int]) {
                self.lemma_scan_end(items, (room - 1) as nat, i + 1);
            } else {
                self.lemma_scan_end(items, room, i + 1);
            }
        }
    }

    /// A scan that leaves room goes to the end.
    pub(crate) proof fn lemma_unfilled_scan(self, items: Seq<GtfaItem>, room: nat, i: nat)
        requires
            i <= items.len(),
            self.admitted(items.subrange(i as int, self.scan_end(items, room, i) as int)).len()
                < room,
        ensures
            self.scan_end(items, room, i) == items.len(),
        decreases items.len() - i,
    {
        self.lemma_scan_end(items, room, i);
        if i < items.len() {
            let end = self.scan_end(items, room, i) as int;
            let item = items[i as int];
            let one = seq![item];
            let behind = items.subrange(i as int + 1, end);
            let left: nat = if self.admits(item) {
                (room - 1) as nat
            } else {
                room
            };
            self.lemma_scan_end(items, left, i + 1);
            assert(items.subrange(i as int, end) =~= one + behind);
            self.law_lists_concatenate(one, behind);
            assert(one.drop_last() =~= Seq::<GtfaItem>::empty());
            assert(self.admitted(one.drop_last()) =~= Seq::<GtfaEntry>::empty());
            if left > 0 {
                self.lemma_unfilled_scan(items, left, i + 1);
            }
        }
    }

    /// No more are listed than there are.
    pub proof fn lemma_admitted_len(self, items: Seq<GtfaItem>)
        ensures
            self.admitted(items).len() <= items.len(),
        decreases items.len(),
    {
        if items.len() > 0 {
            self.lemma_admitted_len(items.drop_last());
        }
    }

    /// What is listed of two lists, one behind the other, is what is listed of
    /// the first and then what is listed of the second.
    pub proof fn law_lists_concatenate(self, first: Seq<GtfaItem>, second: Seq<GtfaItem>)
        ensures
            self.admitted(first + second) == self.admitted(first) + self.admitted(second),
        decreases second.len(),
    {
        let both = first + second;
        if second.len() == 0 {
            assert(both =~= first);
            assert(self.admitted(first) + self.admitted(second) =~= self.admitted(first));
        } else {
            assert(both.drop_last() =~= first + second.drop_last());
            assert(both.last() == second.last());
            self.law_lists_concatenate(first, second.drop_last());
            assert(self.admitted(both) =~= self.admitted(first) + self.admitted(second));
        }
    }

    /// A scan from the `i`th item on lists what fits into the room of what is
    /// admitted from there on.
    #[verifier::spinoff_prover]
    proof fn lemma_scan_lists(self, items: Seq<GtfaItem>, room: nat, i: nat)
        requires
            i <= items.len(),
        ensures
            ({
                let end = self.scan_end(items, room, i);
                let all = self.admitted(items.skip(i as int));
                self.admitted(items.subrange(i as int, end as int)) == if all.len() <= room {
                    all
                } else {
                    all.take(room as int)
                }
            }),
        decreases items.len() - i,
    {
        self.lemma_scan_end(items, room, i);
        let end = self.scan_end(items, room, i);
        let rest = items.skip(i as int);
        let all = self.admitted(rest);
        let scanned = items.subrange(i as int, end as int);
        if i >= items.len() {
            assert(scanned =~= Seq::<GtfaItem>::empty());
            assert(rest =~= Seq::<GtfaItem>::empty());
        } else if room == 0 {
            assert(scanned =~= Seq::<GtfaItem>::empty());
            assert(all.take(0) =~= Seq::<GtfaEntry>::empty());
        } else {
            let item = items[i as int];
            let left: nat = if self.admits(item) {
                (room - 1) as nat
            } else {
                room
            };
            self.lemma_scan_lists(items, left, i + 1);
            self.lemma_scan_end(items, left, i + 1);
            let one = seq![item];
            let behind = items.skip(i as int + 1);
            let scanned_behind = items.subrange(i as int + 1, end as int);
            assert(rest =~= one + behind);
            assert(scanned =~= one + scanned_behind);
            self.law_lists_concatenate(one, behind);
            self.law_lists_concatenate(one, scanned_behind);
            assert(one.drop_last() =~= Seq::<GtfaItem>::empty());
            assert(self.admitted(one.drop_last()) =~= Seq::<GtfaEntry>::empty());
            let head = self.admitted(one);
            let tail = self.admitted(behind);
            assert(all == head + tail);
            if self.admits(item) {
                assert(head =~= seq![item.entry()]);
                if tail.len() > left {
                    assert(all.take(room as int) =~= head + tail.take(left as int));
                }
            } else {
                assert(head =~= Seq::<GtfaEntry>::empty());
                assert(head + tail =~= tail);
                assert(head + self.admitted(scanned_behind) =~= self.admitted(scanned_behind));
            }
        }
    }

    /// A batch lists the first transactions that the filters admit, as many as
    /// there is room for.
    pub proof fn law_batch_lists_the_first_admitted(self, items: Seq<GtfaItem>, room: nat)
        ensures
            self.listed(items, room) == if self.admitted(items).len() <= room {
                self.admitted(items)
            } else {
                self.admitted(items).take(room as int)
            },
    {
        self.lemma_scan_lists(items, room, 0);
        let end = self.scan_end(items, room, 0);
        self.lemma_scan_end(items, room, 0);
        assert(items.subrange(0, end as int) =~= items.take(end as int));
        assert(items.skip(0) =~= items);
    }

    /// A scan that fills the room ends behind a transaction that is listed.
    #[verifier::spinoff_prover]
    proof fn lemma_scan_ends_behind_a_listed_one(self, items: Seq<GtfaItem>, room: nat, i: nat)
        requires
            i <= items.len(),
            room > 0,
            self.admitted(items.subrange(i as int, self.scan_end(items, room, i) as int)).len()
                == room,
        ensures
            i < self.scan_end(items, room, i) <= items.len(),
            self.admits(items[self.scan_end(items, room, i) - 1]),
        decreases items.len() - i,
    {
        self.lemma_scan_end(items, room, i);
        let end = self.scan_end(items, room, i);
        let scanned = items.subrange(i as int, end as int);
        self.lemma_admitted_len(scanned);
        assert(i < items.len());
        let item = items[i as int];
        let left: nat = if self.admits(item) {
            (room - 1) as nat
        } else {
            room
        };
        assert(end == self.scan_end(items, left, i + 1));
        if left == 0 {
            assert(self.admits(item));
            assert(end == i + 1);
        } else {
            self.lemma_scan_end(items, left, i + 1);
            let one = seq![item];
            let scanned_behind = items.subrange(i as int + 1, end as int);
            assert(scanned =~= one + scanned_behind);
            self.law_lists_concatenate(one, scanned_behind);
            assert(one.drop_last() =~= Seq::<GtfaItem>::empty());
            assert(self.admitted(one.drop_last()) =~= Seq::<GtfaEntry>::empty());
            assert(self.admitted(scanned_behind).len() == left);
            self.lemma_scan_ends_behind_a_listed_one(items, left, i + 1);
        }
    }

    /// Where a page is full, its last transaction is the last one that was
    /// scanned, and a page that goes on behind it lists what this one left.
    #[verifier::spinoff_prover]
    pub proof fn law_next_page_lists_the_rest(self, items: Seq<GtfaItem>, room: nat)
        requires
            0 < room <= self.admitted(items).len(),
        ensures
            ({
                let end = self.scan_end(items, room, 0) as int;
                &&& 0 < end <= items.len()
                &&& self.listed(items, room).len() == room
                &&& self.listed(items, room).last() == items[end - 1].entry()
                &&& self.admitted(items.skip(end)) == self.admitted(items).skip(room as int)
            }),
    {
        self.law_batch_lists_the_first_admitted(items, room);
        self.lemma_scan_end(items, room, 0);
        let end = self.scan_end(items, room, 0) as int;
        let scanned = items.take(end);
        assert(items.subrange(0, end) =~= scanned);
        assert(self.admitted(items).take(self.admitted(items).len() as int) =~= self.admitted(
            items,
        ));
        self.lemma_scan_ends_behind_a_listed_one(items, room, 0);
        assert(scanned.last() == items[end - 1]);
        assert(items =~= scanned + items.skip(end));
        self.law_lists_concatenate(scanned, items.skip(end));
        assert(self.admitted(items).skip(room as int) =~= self.admitted(items.skip(end)));
    }

    /// What a page holds after a number of batches.
    pub open spec fn filled(self, batches: Seq<Seq<GtfaItem>>) -> Seq<GtfaEntry>
        decreases batches.len(),
    {
        if batches.len() == 0 {
            Seq::empty()
        } else {
            let before = self.filled(batches.drop_last());
            before + self.listed(batches.last(), (self.request.limit - before.len()) as nat)
        }
    }

    /// All transactions of a number of batches.
    pub open spec fn delivered(batches: Seq<Seq<GtfaItem>>) -> Seq<GtfaItem>
        decreases batches.len(),
    {
        if batches.len() == 0 {
            Seq::empty()
        } else {
            Selection::delivered(batches.drop_last()) + batches.last()
        }
    }

    /// A page holds the first transactions that the filters admit of all that
    /// the storage delivered, up to the limit, however they came in batches.
    #[verifier::spinoff_prover]
    pub proof fn law_page_holds_the_first_admitted(self, batches: Seq<Seq<GtfaItem>>)
        ensures
            ({
                let all = self.admitted(Selection::delivered(batches));
                self.filled(batches) == if all.len() <= self.request.limit {
                    all
                } else {
                    all.take(self.request.limit as int)
                }
            }),
        decreases batches.len(),
    {
        let limit = self.request.limit as nat;
        let all = self.admitted(Selection::delivered(batches));
        if batches.len() == 0 {
            assert(self.filled(batches) =~= all);
        } else {
            let init = batches.drop_last();
            let last = batches.last();
            self.law_page_holds_the_first_admitted(init);
            self.law_lists_concatenate(Selection::delivered(init), last);
            let known = self.admitted(Selection::delivered(init));
            let new = self.admitted(last);
            let before = self.filled(init);
            let room = (limit - before.len()) as nat;
            self.law_batch_lists_the_first_admitted(last, room);
            assert(all == known + new);
            if known.len() <= limit {
                if new.len() <= room {
                    assert(self.filled(batches) =~= all);
                } else {
                    assert(self.filled(batches) =~= all.take(limit as int));
                }
            } else {
                assert(room == 0);
                assert(self.listed(last, room) =~= Seq::<GtfaEntry>::empty());
                assert(self.filled(batches) =~= all.take(limit as int));
            }
        }
    }

    /// Every delivered transaction that is admitted is listed.
    pub(crate) proof fn lemma_admitted_contains(self, items: Seq<GtfaItem>, j: int) -> (i: int)
        requires
            0 <= j < items.len(),
            self.admits(items[j]),
        ensures
            0 <= i < self.admitted(items).len(),
            self.admitted(items)[i] == items[j].entry(),
        decreases items.len(),
    {
        let init = self.admitted(items.drop_last());
        if j == items.len() - 1 {
            init.len() as int
        } else {
            assert(items.drop_last()[j] == items[j]);
            self.lemma_admitted_contains(items.drop_last(), j)
        }
    }

    /// Every listed transaction is one of the delivered ones, and admitted.
    pub(crate) proof fn lemma_admitted_source(self, items: Seq<GtfaItem>, i: int)
        requires
            0 <= i < self.admitted(items).len(),
        ensures
            exists|j: int|
                0 <= j < items.len() && self.admits(#[trigger] items[j]) && items[j].entry()
                    == self.admitted(items)[i],
        decreases items.len(),
    {
        let init = self.admitted(items.drop_last());
        if i < init.len() {
            self.lemma_admitted_source(items.drop_last(), i);
            let j = choose|j: int|
                0 <= j < items.drop_last().len() && self.admits(#[trigger] items.drop_last()[j])
                    && items.drop_last()[j].entry() == init[i];
            assert(items[j] == items.drop_last()[j]);
        } else {
            assert(items[items.len() - 1] == items.last());
        }
    }

    /// Where the storage delivers transactions in an order without
    /// repetitions, they are listed in that order without repetitions.
    #[verifier::spinoff_prover]
    pub proof fn law_order_is_kept(self, items: Seq<GtfaItem>, desc: bool)
        requires
            in_order(positions(items), desc),
        ensures
            in_order(entry_positions(self.admitted(items)), desc),
        decreases items.len(),
    {
        if items.len() > 0 {
            let init = items.drop_last();
            assert(positions(init) =~= positions(items).drop_last());
            assert forall|i: int, j: int| 0 <= i < j < init.len() implies in_turn(
                #[trigger] positions(init)[i],
                #[trigger] positions(init)[j],
                desc,
            ) by {
                assert(positions(init)[i] == positions(items)[i]);
                assert(positions(init)[j] == positions(items)[j]);
            }
            self.law_order_is_kept(init, desc);
            let list = self.admitted(items);
            let before = self.admitted(init);
            assert forall|i: int, j: int| 0 <= i < j < list.len() implies in_turn(
                #[trigger] entry_positions(list)[i],
                #[trigger] entry_positions(list)[j],
                desc,
            ) by {
                assert(entry_positions(before)[i] == entry_positions(list)[i]);
                if j < before.len() {
                    assert(entry_positions(before)[j] == entry_positions(list)[j]);
                } else {
                    self.lemma_admitted_source(init, i);
                    let k = choose|k: int|
                        0 <= k < init.len() && self.admits(#[trigger] init[k]) && init[k].entry()
                            == before[i];
                    assert(positions(items)[k] == entry_positions(list)[i]);
                    assert(positions(items)[items.len() - 1] == entry_positions(list)[j]);
                }
            }
        }
    }
}

/// The positions of transactions.
pub open spec fn positions(items: Seq<GtfaItem>) -> Seq<(int, int)> {
    Seq::new(items.len(), |i: int| (items[i].record.slot as int, items[i].index as int))
}

/// The positions of listed transactions.
pub open spec fn entry_positions(entries: Seq<GtfaEntry>) -> Seq<(int, int)> {
    Seq::new(
        entries.len(),
        |i: int| (entries[i].record.slot as int, entries[i].transaction_index as int),
    )
}

/// Whether a position may come before another one in a list.
pub open spec fn in_turn(a: (int, int), b: (int, int), desc: bool) -> bool {
    if desc {
        b.0 < a.0 || (b.0 == a.0 && b.1 < a.1)
    } else {
        a.0 < b.0 || (a.0 == b.0 && a.1 < b.1)
    }
}

/// Whether positions come in order, without repetitions.
pub open spec fn in_order(positions: Seq<(int, int)>, desc: bool) -> bool {
    forall|i: int, j: int|
        0 <= i < j < positions.len() ==> in_turn(
            #[trigger] positions[i],
            #[trigger] positions[j],
            desc,
        )
}

// ------------------------------------------------------- filling a page

/// Which signature is looked up next, or that all have been.
#[derive(Debug, Clone, Copy, PartialEq, Eq, Structural)]
pub enum GtfaStage {
    Gte,
    Gt,
    Lte,
    Lt,
    Scan,
}

/// What filling a page needs next.
#[derive(Debug)]
pub enum GtfaStep {
    /// Something from the storage.
    Read(ReadRequest),
    /// Nothing more. The page is answered with this token.
    Done { pagination_token: Option<String> },
}

/// A request whose page is being filled.
#[derive(Debug)]
pub struct GtfaProcess {
    pub request: RpcRequestTransactionsForAddress,
    pub stage: GtfaStage,
    pub positions: GtfaSignaturePositionFilter,
    pub page: GtfaPage,
}

/// How many stages come behind a stage.
pub open spec fn stages_left(stage: GtfaStage) -> nat {
    match stage {
        GtfaStage::Gte => 4,
        GtfaStage::Gt => 3,
        GtfaStage::Lte => 2,
        GtfaStage::Lt => 1,
        GtfaStage::Scan => 0,
    }
}

impl RpcRequestTransactionsForAddress {
    /// The signature that a stage looks up, where the request filters by it.
    pub open spec fn wanted(self, stage: GtfaStage) -> Option<Signature> {
        match self.signature_filter {
            None => None,
            Some(filter) => match stage {
                GtfaStage::Gte => filter.gte,
                GtfaStage::Gt => filter.gt,
                GtfaStage::Lte => filter.lte,
                GtfaStage::Lt => filter.lt,
                GtfaStage::Scan => None,
            },
        }
    }

    /// The first stage from `stage` on that has something to look up.
    pub open spec fn stage_from(self, stage: GtfaStage) -> GtfaStage
        decreases stages_left(stage),
    {
        if self.wanted(stage) is Some {
            stage
        } else {
            match stage {
                GtfaStage::Gte => self.stage_from(GtfaStage::Gt),
                GtfaStage::Gt => self.stage_from(GtfaStage::Lte),
                GtfaStage::Lte => self.stage_from(GtfaStage::Lt),
                GtfaStage::Lt => GtfaStage::Scan,
                GtfaStage::Scan => GtfaStage::Scan,
            }
        }
    }

    /// The signature that a stage looks up, where the request filters by it.
    fn wanted_signature(&self, stage: GtfaStage) -> (r: Option<Signature>)
        ensures
            r == self.wanted(stage),
    {
        match self.signature_filter {
            None => None,
            Some(filter) => match stage {
                GtfaStage::Gte => filter.gte,
                GtfaStage::Gt => filter.gt,
                GtfaStage::Lte => filter.lte,
                GtfaStage::Lt => filter.lt,
                GtfaStage::Scan => None,
            },
        }
    }

    /// The first stage from `stage` on that has something to look up.
    fn next_stage(&self, stage: GtfaStage) -> (r: GtfaStage)
        ensures
            r == self.stage_from(stage),
            r != GtfaStage::Scan ==> self.wanted(r) is Some,
        decreases stages_left(stage),
    {
        if self.wanted_signature(stage).is_some() {
            return stage;
        }
        match stage {
            GtfaStage::Gte => self.next_stage(GtfaStage::Gt),
            GtfaStage::Gt => self.next_stage(GtfaStage::Lte),
            GtfaStage::Lte => self.next_stage(GtfaStage::Lt),
            GtfaStage::Lt => GtfaStage::Scan,
            GtfaStage::Scan => GtfaStage::Scan,
        }
    }
}

/// The stage behind a stage.
pub open spec fn stage_after(stage: GtfaStage) -> GtfaStage {
    match stage {
        GtfaStage::Gte => GtfaStage::Gt,
        GtfaStage::Gt => GtfaStage::Lte,
        GtfaStage::Lte => GtfaStage::Lt,
        GtfaStage::Lt => GtfaStage::Scan,
        GtfaStage::Scan => GtfaStage::Scan,
    }
}

/// The bounds with the one that a stage looked up.
pub open spec fn with_position(
    positions: GtfaSignaturePositionFilter,
    stage: GtfaStage,
    position: Position,
) -> GtfaSignaturePositionFilter {
    match stage {
        GtfaStage::Gte => GtfaSignaturePositionFilter { gte: Some(position), ..positions },
        GtfaStage::Gt => GtfaSignaturePositionFilter { gt: Some(position), ..positions },
        GtfaStage::Lte => GtfaSignaturePositionFilter { lte: Some(position), ..positions },
        GtfaStage::Lt => GtfaSignaturePositionFilter { lt: Some(position), ..positions },
        GtfaStage::Scan => positions,
    }
}

/// The position in the storage that a cursor stands for.
pub open spec fn cursor_position(cursor: Option<GtfaCursor>) -> Option<(u64, u32)> {
    match cursor {
        Some(cursor) => Some((cursor.slot, cursor.transaction_index as u32)),
        None => None,
    }
}

impl GtfaProcess {
    /// Whether the page is as far as it can be at this stage.
    pub open spec fn wf(self) -> bool {
        &&& self.request.wf()
        &&& self.page.wf(self.request.limit)
        &&& self.stage != GtfaStage::Scan ==> self.request.wanted(self.stage) is Some
    }

    /// The bounds on positions, where the request filters by signatures.
    pub open spec fn position_filter(self) -> Option<GtfaSignaturePositionFilter> {
        if self.request.signature_filter is Some {
            Some(self.positions)
        } else {
            None
        }
    }

    /// What decides which transactions are listed.
    pub open spec fn selection(self) -> Selection {
        Selection { request: self.request, positions: self.position_filter() }
    }

    /// The first slot that the storage looks at.
    pub open spec fn slot_lower(self) -> Option<u64> {
        filter::later_slot(
            self.request.slot_filter_lower,
            match self.position_filter() {
                Some(positions) => positions.lower(),
                None => None,
            },
        )
    }

    /// The last slot that the storage looks at.
    pub open spec fn slot_upper(self) -> Option<u64> {
        filter::earlier_slot(
            self.request.slot_filter_upper,
            match self.position_filter() {
                Some(positions) => positions.upper(),
                None => None,
            },
        )
    }

    /// What the storage is asked for at this stage.
    pub open spec fn read_request(self, state: State) -> ReadRequest {
        if self.stage != GtfaStage::Scan {
            ReadRequest::SignaturePosition {
                address: self.request.address,
                signature: self.request.wanted(self.stage)->0,
            }
        } else {
            ReadRequest::TransactionsForAddress {
                commitment: self.request.commitment,
                address: self.request.address,
                desc: self.request.desc,
                cursor: self.page.storage_cursor,
                slot_filter_lower: self.slot_lower(),
                slot_filter_upper: self.slot_upper(),
                block_time_filter_lower: self.request.block_time_filter_lower,
                block_time_filter_upper: self.request.block_time_filter_upper,
                limit: batch_limit(
                    self.request,
                    state,
                    (self.request.limit - self.page.entries@.len()) as nat,
                ) as usize,
            }
        }
    }

    /// A request whose page is still empty.
    pub fn new(request: RpcRequestTransactionsForAddress) -> (r: GtfaProcess)
        requires
            request.wf(),
        ensures
            r.wf(),
            r.request == request,
            r.stage == request.stage_from(GtfaStage::Gte),
            r.positions == GtfaSignaturePositionFilter::unbounded(),
            r.page.entries@ == Seq::<GtfaEntry>::empty(),
            r.page.storage_cursor == cursor_position(request.pagination_token),
            r.page.page_cursor is None,
            !r.page.storage_finished,
            !r.page.reached_limit,
    {
        let stage: GtfaStage = request.next_stage(GtfaStage::Gte);
        let storage_cursor: Option<(u64, u32)> = match request.pagination_token {
            Some(cursor) => Some((cursor.slot, cursor.transaction_index as u32)),
            None => None,
        };
        GtfaProcess {
            request,
            stage,
            positions: GtfaSignaturePositionFilter::default(),
            page: GtfaPage {
                entries: Vec::new(),
                storage_cursor,
                page_cursor: None,
                storage_finished: false,
                reached_limit: false,
            },
        }
    }

    /// What filling the page needs next.
    pub fn next(&self, state: &State) -> (r: GtfaStep)
        requires
            self.wf(),
        ensures
            self.stage != GtfaStage::Scan || self.page.entries@.len() < self.request.limit
                ==> r == GtfaStep::Read(self.read_request(*state)),
            self.stage == GtfaStage::Scan && self.page.entries@.len() == self.request.limit
                ==> {
                &&& r matches GtfaStep::Done { pagination_token }
                &&& token_of(self.page.next_cursor(), pagination_token)
            },
    {
        if self.stage != GtfaStage::Scan {
            if let Some(signature) = self.request.wanted_signature(self.stage) {
                return GtfaStep::Read(
                    ReadRequest::SignaturePosition { address: self.request.address, signature },
                );
            }
        }
        let remaining: usize = self.request.limit - self.page.entries.len();
        if remaining == 0 {
            return self.finish();
        }
        let limit: usize = if self.request.filters.is_some() {
            let more: usize = if remaining > usize::MAX / 4 {
                usize::MAX
            } else {
                remaining * 4
            };
            let allowed: usize = if more <= state.gtfa_limit_signatures {
                more
            } else {
                state.gtfa_limit_signatures
            };
            if allowed >= remaining {
                allowed
            } else {
                remaining
            }
        } else {
            remaining
        };
        assert(limit == batch_limit(self.request, *state, remaining as nat));
        let (lower, upper): (Option<u64>, Option<u64>) = match self.request.signature_filter {
            Some(_) => (self.positions.lower_slot(), self.positions.upper_slot()),
            None => (None, None),
        };
        GtfaStep::Read(
            ReadRequest::TransactionsForAddress {
                commitment: self.request.commitment,
                address: self.request.address,
                desc: self.request.desc,
                cursor: self.page.storage_cursor,
                slot_filter_lower: filter::max_slot(self.request.slot_filter_lower, lower),
                slot_filter_upper: filter::min_slot(self.request.slot_filter_upper, upper),
                block_time_filter_lower: self.request.block_time_filter_lower,
                block_time_filter_upper: self.request.block_time_filter_upper,
                limit,
            },
        )
    }

    /// The answer to a page that is not filled any further.
    pub fn finish(&self) -> (r: GtfaStep)
        ensures
            r matches GtfaStep::Done { pagination_token } && token_of(
                self.page.next_cursor(),
                pagination_token,
            ),
    {
        let pagination_token: Option<String> = if self.page.storage_finished
            && !self.page.reached_limit {
            None
        } else {
            match self.page.page_cursor {
                Some(cursor) => Some(cursor.encode()),
                None => None,
            }
        };
        GtfaStep::Done { pagination_token }
    }

    /// Takes the position of a signature that was looked up. Where the storage
    /// does not know the signature, `false` is returned: the page is answered
    /// empty.
    pub fn on_position(&mut self, read: Read<Option<(u64, u32)>>) -> (r: Result<bool, Failure>)
        requires
            old(self).wf(),
            old(self).stage != GtfaStage::Scan,
        ensures
            final(self).wf(),
            final(self).request == old(self).request,
            final(self).page == old(self).page,
            match action::received_of(read) {
                Err(failure) => {
                    &&& r == Err::<bool, Failure>(failure)
                    &&& *final(self) == *old(self)
                },
                Ok(None) => {
                    &&& r == Ok::<bool, Failure>(false)
                    &&& *final(self) == *old(self)
                },
                Ok(Some(position)) => {
                    &&& r == Ok::<bool, Failure>(true)
                    &&& final(self).positions == with_position(
                        old(self).positions,
                        old(self).stage,
                        position,
                    )
                    &&& final(self).stage == old(self).request.stage_from(
                        stage_after(old(self).stage),
                    )
                },
            },
    {
        let position: Position = match action::received(read) {
            Err(failure) => {
                return Err(failure);
            },
            Ok(None) => {
                return Ok(false);
            },
            Ok(Some(position)) => position,
        };
        let after: GtfaStage = match self.stage {
            GtfaStage::Gte => {
                self.positions.gte = Some(position);
                GtfaStage::Gt
            },
            GtfaStage::Gt => {
                self.positions.gt = Some(position);
                GtfaStage::Lte
            },
            GtfaStage::Lte => {
                self.positions.lte = Some(position);
                GtfaStage::Lt
            },
            GtfaStage::Lt => {
                self.positions.lt = Some(position);
                GtfaStage::Scan
            },
            GtfaStage::Scan => GtfaStage::Scan,
        };
        self.stage = self.request.next_stage(after);
        Ok(true)
    }

    /// Whether a transaction is listed.
    fn is_admitted(&self, record: &SignatureRecord, index: u32, flags: u8) -> (r: bool)
        ensures
            r == self.selection().admits(GtfaItem { record: *record, index, flags }),
    {
        if !self.request.token_accounts.matches(flags) {
            return false;
        }
        if let Some(filters) = &self.request.filters {
            if !filters.matches(record.block_time, record.failed) {
                return false;
            }
        }
        if self.request.signature_filter.is_some() {
            self.positions.matches((record.slot, index))
        } else {
            true
        }
    }

    /// Takes a batch of transactions, and lists those that the filters admit
    /// and that there is room for. Returns whether the page is not filled any
    /// further: it is full, the storage has no more, or the batch was empty.
    #[verifier::spinoff_prover]
    pub fn on_batch(&mut self, read: Read<GtfaBatch>) -> (r: Result<bool, Failure>)
        requires
            old(self).wf(),
            old(self).stage == GtfaStage::Scan,
            old(self).page.entries@.len() < old(self).request.limit,
        ensures
            final(self).wf(),
            final(self).request == old(self).request,
            final(self).positions == old(self).positions,
            final(self).stage == old(self).stage,
            match action::received_of(read) {
                Err(failure) => {
                    &&& r == Err::<bool, Failure>(failure)
                    &&& *final(self) == *old(self)
                },
                Ok(batch) => {
                    let selection = old(self).selection();
                    let items = batch.items();
                    let room = (old(self).request.limit - old(self).page.entries@.len()) as nat;
                    let end = selection.scan_end(items, room, 0);
                    let listed = selection.listed(items, room);
                    &&& final(self).page.entries@ == old(self).page.entries@ + listed
                    &&& final(self).page.storage_cursor == if end == 0 {
                        old(self).page.storage_cursor
                    } else {
                        Some(items[end - 1].position())
                    }
                    &&& final(self).page.storage_finished == batch.finished
                    &&& final(self).page.reached_limit == (listed.len() == room)
                    &&& r == Ok::<bool, Failure>(
                        listed.len() == room || batch.finished || batch.signatures@.len() == 0,
                    )
                },
            },
    {
        let batch: GtfaBatch = match action::received(read) {
            Err(failure) => {
                return Err(failure);
            },
            Ok(batch) => batch,
        };
        let ghost before = *self;
        let ghost selection = self.selection();
        let ghost items = batch.items();
        let ghost room = (self.request.limit - self.page.entries@.len()) as nat;

        self.page.storage_finished = batch.finished;
        self.page.reached_limit = false;
        let mut i: usize = 0;
        assert(items.take(0) =~= Seq::<GtfaItem>::empty());
        assert(self.page.entries@ =~= before.page.entries@ + selection.admitted(items.take(0)));
        while !self.page.reached_limit && i < batch.signatures.len() && i
            < batch.transaction_indices.len() && i < batch.token_owner_flags.len()
            invariant
                before.wf(),
                before.stage == GtfaStage::Scan,
                before.page.entries@.len() < before.request.limit,
                selection == before.selection(),
                items == batch.items(),
                room == before.request.limit - before.page.entries@.len(),
                self.request == before.request,
                self.positions == before.positions,
                self.stage == before.stage,
                self.wf(),
                i <= items.len(),
                self.page.entries@ == before.page.entries@ + selection.admitted(
                    items.take(i as int),
                ),
                self.page.storage_cursor == (if i == 0 {
                    before.page.storage_cursor
                } else {
                    Some(items[i - 1].position())
                }),
                self.page.storage_finished == batch.finished,
                self.page.reached_limit == (self.page.entries@.len() == self.request.limit),
                selection.scan_end(items, room, 0) == selection.scan_end(
                    items,
                    (self.request.limit - self.page.entries@.len()) as nat,
                    i as nat,
                ),
            decreases batch.signatures.len() - i,
        {
            let record: &SignatureRecord = &batch.signatures[i];
            let index: u32 = batch.transaction_indices[i];
            let flags: u8 = batch.token_owner_flags[i];
            let ghost item = items[i as int];
            let ghost known = self.page.entries@;
            assert(item == GtfaItem { record: *record, index, flags });
            assert(items.take(i + 1).drop_last() =~= items.take(i as int));
            assert(items.take(i + 1).last() == item);
            // The storage goes on behind this one, whether it is listed or not.
            self.page.storage_cursor = Some((record.slot, index));
            let admitted: bool = self.is_admitted(record, index, flags);
            assert(admitted == selection.admits(item));
            if admitted {
                let entry = GtfaEntry { record: record.copy(), transaction_index: index as usize };
                assert(entry == item.entry());
                self.page.page_cursor = Some(
                    GtfaCursor { slot: record.slot, transaction_index: index as usize },
                );
                self.page.entries.push(entry);
                self.page.reached_limit = self.page.entries.len() == self.request.limit;
                assert(self.page.entries@ =~= before.page.entries@ + selection.admitted(
                    items.take(i + 1),
                ));
            }
            i = i + 1;
        }
        let ghost end = selection.scan_end(items, room, 0);
        assert(end == i);
        let done: bool = self.page.reached_limit || self.page.storage_finished
            || batch.signatures.len() == 0;
        Ok(done)
    }
}

/// Whether `token` is the token of `cursor`.
pub open spec fn token_of(cursor: Option<GtfaCursor>, token: Option<String>) -> bool {
    match cursor {
        None => token is None,
        Some(cursor) => token matches Some(token) && token@ == cursor.token(),
    }
}

/// The token of a page brings back the position of its last transaction: the
/// request that gives it goes on in the storage behind that one.
pub proof fn law_token_goes_on_behind_the_page(page: GtfaPage, limit: usize, token: Option<String>)
    requires
        page.wf(limit),
        token_of(page.next_cursor(), token),
    ensures
        token matches Some(text) ==> {
            &&& page.entries@.len() > 0
            &&& GtfaCursor::of(text@) == Some(page.entries@.last().cursor())
            &&& cursor_position(GtfaCursor::of(text@)) == Some(
                (
                    page.entries@.last().record.slot,
                    page.entries@.last().transaction_index as u32,
                ),
            )
            &&& page.entries@.last().transaction_index as u32
                == page.entries@.last().transaction_index
        },
{
    if let Some(text) = token {
        filter::law_token_gives_back_the_cursor(page.page_cursor->0);
        let last = page.entries@[page.entries@.len() - 1];
        assert(last.transaction_index <= u32::MAX);
    }
}

/// A page that is not full and has a token can be asked for more: a token is
/// missing only where the storage has no more, or where nothing was listed.
pub proof fn law_no_token_means_no_more(page: GtfaPage, limit: usize, token: Option<String>)
    requires
        page.wf(limit),
        token_of(page.next_cursor(), token),
    ensures
        token is None <==> (page.storage_finished && !page.reached_limit)
            || page.entries@.len() == 0,
{
}

/// No fewer transactions are asked of the storage than the page lacks.
pub proof fn law_batch_can_fill_the_page(
    request: RpcRequestTransactionsForAddress,
    state: State,
    remaining: nat,
)
    ensures
        batch_limit(request, state, remaining) >= remaining,
        batch_limit(request, state, remaining) <= 4 * remaining,
{
}

/// Asking the storage for fewer slots, as the positions of the signatures
/// allow, loses nothing that would be listed.
pub proof fn law_fewer_slots_lose_nothing(process: GtfaProcess, item: GtfaItem)
    requires
        process.selection().admits(item),
        process.request.slot_filter_lower matches Some(slot) ==> slot <= item.record.slot,
        process.request.slot_filter_upper matches Some(slot) ==> item.record.slot <= slot,
    ensures
        process.slot_lower() matches Some(slot) ==> slot <= item.record.slot,
        process.slot_upper() matches Some(slot) ==> item.record.slot <= slot,
{
    if let Some(positions) = process.position_filter() {
        filter::law_slots_hold_what_is_admitted(positions, item.position());
    }
}

/// Asking the storage only for the times that the bounds of a request allow
/// loses nothing that would be listed.
pub proof fn law_fewer_times_lose_nothing(
    state: State,
    address: Pubkey,
    signature_filter: Option<GtfaSignatureFilter>,
    options: GtfaOptions,
    positions: Option<GtfaSignaturePositionFilter>,
    item: GtfaItem,
)
    requires
        (Selection {
            request: request::request(state, address, signature_filter, options),
            positions,
        }).admits(item),
    ensures
        ({
            let asked = request::request(state, address, signature_filter, options);
            let time = item.record.block_time;
            &&& asked.block_time_filter_lower matches Some(bound) ==> (time matches Some(t) && bound
                <= t)
            &&& asked.block_time_filter_upper matches Some(bound) ==> (time matches Some(t) && t
                <= bound)
        }),
{
    if let (Some(comparison), Some(time)) = (
        options.block_time_filter(),
        item.record.block_time,
    ) {
        if comparison.admits(time) {
            filter::law_range_holds_what_is_admitted(comparison, time);
        }
    }
}

} // verus!
