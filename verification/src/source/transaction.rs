//! Which addresses a transaction concerns.

use crate::rpc::keys::{self, Pubkey, Signature};
use crate::text;
use solana_transaction::TransactionError;
use vstd::prelude::*;

verus! {

/// Why a transaction failed.
#[verifier::external_type_specification]
#[verifier::external_body]
pub struct ExTransactionError(TransactionError);

/// Calls `clone` of `solana_transaction::TransactionError`: another copy of
/// the error.
#[verifier::external_body]
fn copy_error(error: &TransactionError) -> (r: TransactionError)
    ensures
        r == *error,
{
    error.clone()
}

/// Another copy of an error, where there is one.
fn copy_optional_error(error: &Option<TransactionError>) -> (r: Option<TransactionError>)
    ensures
        r == *error,
{
    match error {
        Some(error) => Some(copy_error(error)),
        None => None,
    }
}

/// The balance of a token account, before or after a transaction.
#[derive(Debug)]
pub struct TokenBalance {
    /// The place of the account among those of the transaction.
    pub account_index: u8,
    /// The text of the address of the owner.
    pub owner: String,
    /// The text of the amount.
    pub amount: String,
}

/// What is known of a transaction with its metadata.
#[derive(Debug)]
pub struct CompleteTransaction {
    pub account_keys: Vec<Pubkey>,
    pub err: Option<TransactionError>,
    pub memo: Option<String>,
    pub pre_token_balances: Vec<TokenBalance>,
    pub post_token_balances: Vec<TokenBalance>,
    /// Whether the transaction looks like a vote.
    pub is_vote: bool,
}

/// A transaction, as it is stored.
#[derive(Debug)]
pub struct TransactionBinary {
    pub signature: Signature,
    /// The key under which the signature is indexed.
    pub key: [u8; 8],
    /// The bytes of the transaction with its metadata.
    pub protobuf: Vec<u8>,
}

/// What is known of a transaction.
#[derive(Debug)]
pub enum TransactionWithStatusMeta {
    MissingMetadata { binary: TransactionBinary },
    Complete { binary: TransactionBinary, transaction: CompleteTransaction },
}

/// That a transaction concerns an address.
#[derive(Debug)]
pub struct SignatureForAddress {
    pub slot: u64,
    pub address: Pubkey,
    pub signature: Signature,
    pub err: Option<TransactionError>,
    pub memo: Option<String>,
    pub transaction_index: u32,
    /// Whether the address is only the owner of a token account.
    pub token_owner: bool,
    /// Whether the balance of such an account changed.
    pub balance_changed: bool,
}

/// A transaction, and the addresses that it concerns.
#[derive(Debug)]
pub struct TransactionWithBinary {
    pub key: [u8; 8],
    pub signature: Signature,
    pub is_vote: bool,
    pub err: Option<TransactionError>,
    pub sfa: Vec<SignatureForAddress>,
    pub protobuf: Vec<u8>,
    /// The index of the transaction in the block.
    pub index: u32,
}

// ------------------------------------------------------- token balances

/// The amount that a list of balances has for an account: the last one.
pub open spec fn amount_of(balances: Seq<TokenBalance>, account_index: u8) -> Option<Seq<char>>
    decreases balances.len(),
{
    if balances.len() == 0 {
        None
    } else if balances.last().account_index == account_index {
        Some(balances.last().amount@)
    } else {
        amount_of(balances.drop_last(), account_index)
    }
}

/// The last balance that a list has for an account.
fn find_amount(balances: &Vec<TokenBalance>, account_index: u8) -> (r: Option<&String>)
    ensures
        r is Some <==> amount_of(balances@, account_index) is Some,
        r matches Some(amount) ==> amount_of(balances@, account_index) == Some(amount@),
{
    let mut n: usize = balances.len();
    assert(balances@.take(n as int) =~= balances@);
    while n > 0
        invariant
            n <= balances.len(),
            amount_of(balances@.take(n as int), account_index) == amount_of(
                balances@,
                account_index,
            ),
        decreases n,
    {
        let ghost part = balances@.take(n as int);
        assert(part.last() == balances@[n - 1]);
        assert(part.drop_last() =~= balances@.take(n - 1));
        if balances[n - 1].account_index == account_index {
            return Some(&balances[n - 1].amount);
        }
        n = n - 1;
    }
    None
}

impl CompleteTransaction {
    /// The balances before the transaction, and then those after it.
    pub open spec fn balances(self) -> Seq<TokenBalance> {
        self.pre_token_balances@ + self.post_token_balances@
    }

    /// Whether the balance of an account changed.
    pub open spec fn account_changed(self, account_index: u8) -> bool {
        amount_of(self.pre_token_balances@, account_index) != amount_of(
            self.post_token_balances@,
            account_index,
        )
    }

    /// Whether the balance of an account of an owner changed.
    pub open spec fn owner_changed(self, owner: Seq<char>) -> bool {
        exists|i: int|
            0 <= i < self.balances().len() && (#[trigger] self.balances()[i]).owner@ == owner
                && self.account_changed(self.balances()[i].account_index)
    }

    /// Whether an owner occurs among the first `n` balances.
    pub open spec fn owner_seen(self, owner: Seq<char>, n: int) -> bool {
        exists|i: int| 0 <= i < n && (#[trigger] self.balances()[i]).owner@ == owner
    }

    /// The number of balances.
    fn balances_len(&self) -> (r: usize)
        requires
            self.balances().len() <= usize::MAX,
        ensures
            r == self.balances().len(),
    {
        self.pre_token_balances.len() + self.post_token_balances.len()
    }

    /// The balance at a place.
    fn balance(&self, i: usize) -> (r: &TokenBalance)
        requires
            i < self.balances().len(),
        ensures
            *r == self.balances()[i as int],
    {
        if i < self.pre_token_balances.len() {
            &self.pre_token_balances[i]
        } else {
            &self.post_token_balances[i - self.pre_token_balances.len()]
        }
    }

    /// Whether the balance of an account changed.
    fn is_account_changed(&self, account_index: u8) -> (r: bool)
        ensures
            r == self.account_changed(account_index),
    {
        match (
            find_amount(&self.pre_token_balances, account_index),
            find_amount(&self.post_token_balances, account_index),
        ) {
            (Some(before), Some(after)) => !(*before == *after),
            (None, None) => false,
            _ => true,
        }
    }

    /// Whether the balance of an account of an owner changed.
    fn is_owner_changed(&self, owner: &String) -> (r: bool)
        requires
            self.balances().len() <= usize::MAX,
        ensures
            r == self.owner_changed(owner@),
    {
        let len: usize = self.balances_len();
        let mut i: usize = 0;
        while i < len
            invariant
                i <= len,
                len == self.balances().len(),
                forall|j: int|
                    0 <= j < i ==> !((#[trigger] self.balances()[j]).owner@ == owner@
                        && self.account_changed(self.balances()[j].account_index)),
            decreases len - i,
        {
            let balance = self.balance(i);
            if balance.owner == *owner && self.is_account_changed(balance.account_index) {
                assert(self.balances()[i as int].owner@ == owner@);
                return true;
            }
            i = i + 1;
        }
        false
    }

    /// Whether an owner occurs among the first `n` balances.
    fn is_owner_seen(&self, owner: &String, n: usize) -> (r: bool)
        requires
            n <= self.balances().len(),
        ensures
            r == self.owner_seen(owner@, n as int),
    {
        let mut i: usize = 0;
        while i < n
            invariant
                i <= n <= self.balances().len(),
                forall|j: int| 0 <= j < i ==> (#[trigger] self.balances()[j]).owner@ != owner@,
            decreases n - i,
        {
            if self.balance(i).owner == *owner {
                assert(self.balances()[i as int].owner@ == owner@);
                return true;
            }
            i = i + 1;
        }
        false
    }
}

// ------------------------------------------------------- addresses

/// What the records of a transaction have in common.
pub struct Occurrence {
    pub slot: u64,
    pub signature: Signature,
    pub index: u32,
}

impl Occurrence {
    /// That the transaction concerns one of its own accounts.
    pub open spec fn direct(self, transaction: CompleteTransaction, address: Pubkey) -> SignatureForAddress {
        SignatureForAddress {
            slot: self.slot,
            address,
            signature: self.signature,
            err: transaction.err,
            memo: transaction.memo,
            transaction_index: self.index,
            token_owner: false,
            balance_changed: false,
        }
    }

    /// That the transaction concerns the owner of a token account.
    pub open spec fn owner(
        self,
        transaction: CompleteTransaction,
        address: Pubkey,
        balance_changed: bool,
    ) -> SignatureForAddress {
        SignatureForAddress {
            token_owner: true,
            balance_changed,
            ..self.direct(transaction, address)
        }
    }

    /// The records of the accounts of the transaction, in their order.
    pub open spec fn direct_records(self, transaction: CompleteTransaction) -> Seq<SignatureForAddress> {
        Seq::new(
            transaction.account_keys@.len(),
            |i: int| self.direct(transaction, transaction.account_keys@[i]),
        )
    }

    /// Whether the `i`th balance brings a record: its owner occurs for the
    /// first time, has an address, and is none of the accounts.
    pub open spec fn brings_owner(
        self,
        transaction: CompleteTransaction,
        owners: Seq<Option<Pubkey>>,
        i: int,
    ) -> bool {
        &&& !transaction.owner_seen(transaction.balances()[i].owner@, i)
        &&& owners[i] is Some
        &&& !transaction.account_keys@.contains(owners[i]->0)
    }

    /// The records that the first `n` balances bring, in their order.
    pub open spec fn owner_records(
        self,
        transaction: CompleteTransaction,
        owners: Seq<Option<Pubkey>>,
        n: nat,
    ) -> Seq<SignatureForAddress>
        decreases n,
    {
        if n == 0 {
            Seq::empty()
        } else {
            let init = self.owner_records(transaction, owners, (n - 1) as nat);
            if self.brings_owner(transaction, owners, n - 1) {
                init.push(
                    self.owner(
                        transaction,
                        owners[n - 1]->0,
                        transaction.owner_changed(transaction.balances()[n - 1].owner@),
                    ),
                )
            } else {
                init
            }
        }
    }

    /// All records of a transaction: those of its accounts, and then those of
    /// the owners of its token accounts.
    pub open spec fn records(
        self,
        transaction: CompleteTransaction,
        owners: Seq<Option<Pubkey>>,
    ) -> Seq<SignatureForAddress> {
        self.direct_records(transaction) + self.owner_records(
            transaction,
            owners,
            transaction.balances().len(),
        )
    }
}

/// The addresses of the owners of token accounts, where their texts are
/// addresses.
pub open spec fn owners_of(balances: Seq<TokenBalance>) -> Seq<Option<Pubkey>> {
    Seq::new(
        balances.len(),
        |i: int|
            match keys::pubkey_of(balances[i].owner@) {
                Ok(owner) => Some(owner),
                Err(_) => None,
            },
    )
}

impl TransactionWithStatusMeta {
    /// The balances before the transaction, and then those after it.
    pub open spec fn balances(self) -> Seq<TokenBalance> {
        match self {
            TransactionWithStatusMeta::MissingMetadata { .. } => Seq::empty(),
            TransactionWithStatusMeta::Complete { transaction, .. } => transaction.balances(),
        }
    }

    /// The transaction, as it is stored.
    pub open spec fn binary(self) -> TransactionBinary {
        match self {
            TransactionWithStatusMeta::MissingMetadata { binary } => binary,
            TransactionWithStatusMeta::Complete { binary, .. } => binary,
        }
    }

    /// Whether the transaction is a vote, as far as that is known.
    pub open spec fn looks_like_vote(self) -> bool {
        match self {
            TransactionWithStatusMeta::MissingMetadata { .. } => false,
            TransactionWithStatusMeta::Complete { transaction, .. } => transaction.is_vote,
        }
    }

    /// Why the transaction failed, as far as that is known.
    pub open spec fn error(self) -> Option<TransactionError> {
        match self {
            TransactionWithStatusMeta::MissingMetadata { .. } => None,
            TransactionWithStatusMeta::Complete { transaction, .. } => transaction.err,
        }
    }

    /// The records of the transaction. Without metadata there are none.
    pub open spec fn records(self, slot: u64, index: u32, owners: Seq<Option<Pubkey>>) -> Seq<
        SignatureForAddress,
    > {
        match self {
            TransactionWithStatusMeta::MissingMetadata { .. } => Seq::empty(),
            TransactionWithStatusMeta::Complete { binary, transaction } => (Occurrence {
                slot,
                signature: binary.signature,
                index,
            }).records(transaction, owners),
        }
    }
}

impl TransactionWithBinary {
    /// Whether `self` is what a transaction comes to.
    pub open spec fn is_of(
        self,
        slot: u64,
        tx: TransactionWithStatusMeta,
        is_vote: Option<bool>,
        transaction_index: u32,
        owners: Seq<Option<Pubkey>>,
    ) -> bool {
        &&& self.key == tx.binary().key
        &&& self.signature == tx.binary().signature
        &&& self.protobuf == tx.binary().protobuf
        &&& self.is_vote == match is_vote {
            Some(is_vote) => is_vote,
            None => tx.looks_like_vote(),
        }
        &&& self.err == tx.error()
        &&& self.sfa@ == tx.records(slot, transaction_index, owners)
        &&& self.index == transaction_index
    }

    /// The records of the accounts of a transaction.
    fn direct_records(slot: u64, signature: Signature, transaction: &CompleteTransaction, index: u32) -> (r: Vec<
        SignatureForAddress,
    >)
        ensures
            r@ == (Occurrence { slot, signature, index }).direct_records(*transaction),
    {
        let ghost occurrence = Occurrence { slot, signature, index };
        let mut sfa: Vec<SignatureForAddress> = Vec::new();
        let mut i: usize = 0;
        while i < transaction.account_keys.len()
            invariant
                i <= transaction.account_keys.len(),
                occurrence == (Occurrence { slot, signature, index }),
                sfa@.len() == i,
                forall|j: int|
                    0 <= j < i ==> #[trigger] sfa@[j] == occurrence.direct(
                        *transaction,
                        transaction.account_keys@[j],
                    ),
            decreases transaction.account_keys.len() - i,
        {
            sfa.push(
                SignatureForAddress {
                    slot,
                    address: transaction.account_keys[i],
                    signature,
                    err: copy_optional_error(&transaction.err),
                    memo: text::copy_optional(&transaction.memo),
                    transaction_index: index,
                    token_owner: false,
                    balance_changed: false,
                },
            );
            i = i + 1;
        }
        assert(sfa@ =~= occurrence.direct_records(*transaction));
        sfa
    }

    /// All records of a transaction.
    fn records(
        slot: u64,
        signature: Signature,
        transaction: &CompleteTransaction,
        index: u32,
        owners: &Vec<Option<Pubkey>>,
    ) -> (r: Vec<SignatureForAddress>)
        requires
            owners@.len() == transaction.balances().len(),
        ensures
            r@ == (Occurrence { slot, signature, index }).records(*transaction, owners@),
    {
        let ghost occurrence = Occurrence { slot, signature, index };
        let ghost direct = occurrence.direct_records(*transaction);
        let mut sfa: Vec<SignatureForAddress> = TransactionWithBinary::direct_records(
            slot,
            signature,
            transaction,
            index,
        );
        let len: usize = owners.len();
        let mut i: usize = 0;
        assert(sfa@ =~= direct + occurrence.owner_records(*transaction, owners@, 0));
        while i < len
            invariant
                i <= len,
                len == owners@.len(),
                len == transaction.balances().len(),
                occurrence == (Occurrence { slot, signature, index }),
                direct == occurrence.direct_records(*transaction),
                sfa@ == direct + occurrence.owner_records(*transaction, owners@, i as nat),
            decreases len - i,
        {
            let balance: &TokenBalance = transaction.balance(i);
            let seen: bool = transaction.is_owner_seen(&balance.owner, i);
            if !seen {
                if let Some(owner) = owners[i] {
                    if !keys::contains_key(&transaction.account_keys, &owner) {
                        let balance_changed: bool = transaction.is_owner_changed(&balance.owner);
                        sfa.push(
                            SignatureForAddress {
                                slot,
                                address: owner,
                                signature,
                                err: copy_optional_error(&transaction.err),
                                memo: text::copy_optional(&transaction.memo),
                                transaction_index: index,
                                token_owner: true,
                                balance_changed,
                            },
                        );
                    }
                }
            }
            i = i + 1;
            assert(sfa@ =~= direct + occurrence.owner_records(*transaction, owners@, i as nat));
        }
        sfa
    }

    /// What a transaction comes to, given the addresses of the owners of its
    /// token accounts.
    pub fn with_owners(
        slot: u64,
        tx: TransactionWithStatusMeta,
        is_vote: Option<bool>,
        transaction_index: u32,
        owners: &Vec<Option<Pubkey>>,
    ) -> (r: TransactionWithBinary)
        requires
            owners@.len() == tx.balances().len(),
        ensures
            r.is_of(slot, tx, is_vote, transaction_index, owners@),
    {
        match tx {
            TransactionWithStatusMeta::MissingMetadata { binary } => TransactionWithBinary {
                key: binary.key,
                signature: binary.signature,
                is_vote: match is_vote {
                    Some(is_vote) => is_vote,
                    None => false,
                },
                err: None,
                sfa: Vec::new(),
                protobuf: binary.protobuf,
                index: transaction_index,
            },
            TransactionWithStatusMeta::Complete { binary, transaction } => {
                let sfa: Vec<SignatureForAddress> = TransactionWithBinary::records(
                    slot,
                    binary.signature,
                    &transaction,
                    transaction_index,
                    owners,
                );
                TransactionWithBinary {
                    key: binary.key,
                    signature: binary.signature,
                    is_vote: match is_vote {
                        Some(is_vote) => is_vote,
                        None => transaction.is_vote,
                    },
                    err: transaction.err,
                    sfa,
                    protobuf: binary.protobuf,
                    index: transaction_index,
                }
            },
        }
    }

    /// What a transaction comes to: whether it is a vote, why it failed, and
    /// which addresses it concerns.
    pub fn new(
        slot: u64,
        tx: TransactionWithStatusMeta,
        is_vote: Option<bool>,
        transaction_index: u32,
    ) -> (r: TransactionWithBinary)
        requires
            tx.balances().len() <= usize::MAX,
        ensures
            r.is_of(slot, tx, is_vote, transaction_index, owners_of(tx.balances())),
    {
        let mut owners: Vec<Option<Pubkey>> = Vec::new();
        if let TransactionWithStatusMeta::Complete { transaction, .. } = &tx {
            let len: usize = transaction.balances_len();
            let mut i: usize = 0;
            while i < len
                invariant
                    i <= len,
                    len == transaction.balances().len(),
                    owners@.len() == i,
                    forall|j: int|
                        0 <= j < i ==> #[trigger] owners@[j] == owners_of(transaction.balances())[j],
                decreases len - i,
            {
                owners.push(
                    match keys::parse_pubkey(transaction.balance(i).owner.as_str()) {
                        Ok(owner) => Some(owner),
                        Err(_) => None,
                    },
                );
                i = i + 1;
            }
        }
        assert(owners@ =~= owners_of(tx.balances()));
        TransactionWithBinary::with_owners(slot, tx, is_vote, transaction_index, &owners)
    }
}

// ------------------------------------------------------- laws

/// Whether a transaction is told to be a vote changes nothing but whether it
/// is one. Its index is the one in the block, whatever is told.
pub proof fn law_vote_flag_changes_nothing_else(
    slot: u64,
    tx: TransactionWithStatusMeta,
    transaction_index: u32,
    owners: Seq<Option<Pubkey>>,
    told: Option<bool>,
    a: TransactionWithBinary,
    told_otherwise: Option<bool>,
    b: TransactionWithBinary,
)
    requires
        a.is_of(slot, tx, told, transaction_index, owners),
        b.is_of(slot, tx, told_otherwise, transaction_index, owners),
    ensures
        a.index == transaction_index,
        b.index == transaction_index,
        a.key == b.key,
        a.signature == b.signature,
        a.err == b.err,
        a.sfa@ == b.sfa@,
        a.protobuf@ == b.protobuf@,
        told matches Some(is_vote) ==> a.is_vote == is_vote,
        told_otherwise matches Some(is_vote) ==> b.is_vote == is_vote,
{
}

/// A record that balances bring is that of a token owner, and of none of the
/// accounts of the transaction.
pub proof fn law_owner_records_repeat_no_account(
    occurrence: Occurrence,
    transaction: CompleteTransaction,
    owners: Seq<Option<Pubkey>>,
    n: nat,
    i: int,
)
    requires
        0 <= i < occurrence.owner_records(transaction, owners, n).len(),
    ensures
        occurrence.owner_records(transaction, owners, n)[i].token_owner,
        !transaction.account_keys@.contains(
            occurrence.owner_records(transaction, owners, n)[i].address,
        ),
    decreases n,
{
    let init = occurrence.owner_records(transaction, owners, (n - 1) as nat);
    if i < init.len() {
        law_owner_records_repeat_no_account(occurrence, transaction, owners, (n - 1) as nat, i);
    }
}

/// Every account of a transaction has a record, and so has every owner of a
/// token account that has an address: the transaction is found by each.
pub proof fn law_every_address_has_a_record(
    occurrence: Occurrence,
    transaction: CompleteTransaction,
    address: Pubkey,
)
    requires
        transaction.account_keys@.contains(address) || owners_of(
            transaction.balances(),
        ).contains(Some(address)),
    ensures
        exists|k: int|
            0 <= k < occurrence.records(transaction, owners_of(transaction.balances())).len() && (
            #[trigger] occurrence.records(
                transaction,
                owners_of(transaction.balances()),
            )[k]).address == address,
{
    let owners = owners_of(transaction.balances());
    let records = occurrence.records(transaction, owners);
    if transaction.account_keys@.contains(address) {
        let i = choose|i: int|
            0 <= i < transaction.account_keys@.len() && transaction.account_keys@[i] == address;
        assert(records[i].address == address);
    } else {
        let i = choose|i: int| 0 <= i < owners.len() && owners[i] == Some(address);
        let n = lemma_first_of_owner(transaction, i);
        assert(owners[n] == owners[i]);
        let m = lemma_owner_has_a_record(
            occurrence,
            transaction,
            owners,
            owners.len(),
            n,
        );
        let k = transaction.account_keys@.len() + m;
        assert(records[k] == occurrence.owner_records(transaction, owners, owners.len())[m]);
    }
}

/// The first balance of the owner of a balance.
proof fn lemma_first_of_owner(transaction: CompleteTransaction, i: int) -> (n: int)
    requires
        0 <= i < transaction.balances().len(),
    ensures
        0 <= n <= i,
        transaction.balances()[n].owner@ == transaction.balances()[i].owner@,
        !transaction.owner_seen(transaction.balances()[n].owner@, n),
    decreases i,
{
    let owner = transaction.balances()[i].owner@;
    if transaction.owner_seen(owner, i) {
        let j = choose|j: int| 0 <= j < i && (#[trigger] transaction.balances()[j]).owner@ == owner;
        lemma_first_of_owner(transaction, j)
    } else {
        i
    }
}

/// A balance that brings a record has it among the records.
proof fn lemma_owner_has_a_record(
    occurrence: Occurrence,
    transaction: CompleteTransaction,
    owners: Seq<Option<Pubkey>>,
    n: nat,
    i: int,
) -> (k: int)
    requires
        0 <= i < n,
        occurrence.brings_owner(transaction, owners, i),
    ensures
        0 <= k < occurrence.owner_records(transaction, owners, n).len(),
        occurrence.owner_records(transaction, owners, n)[k].address == owners[i]->0,
    decreases n,
{
    let init = occurrence.owner_records(transaction, owners, (n - 1) as nat);
    if i == n - 1 {
        init.len() as int
    } else {
        lemma_owner_has_a_record(occurrence, transaction, owners, (n - 1) as nat, i)
    }
}

// ------------------------------------------------------- laws of the records

/// Every record of a transaction, of an account or of a token owner, tells of
/// that transaction: its slot, signature, outcome, memo and index.
pub proof fn law_every_record_tells_of_the_transaction(
    slot: u64,
    tx: TransactionWithStatusMeta,
    is_vote: Option<bool>,
    transaction_index: u32,
    r: TransactionWithBinary,
    k: int,
)
    requires
        call_ensures(TransactionWithBinary::new, (slot, tx, is_vote, transaction_index), r),
        0 <= k < r.sfa@.len(),
    ensures
        tx matches TransactionWithStatusMeta::Complete { binary, transaction } && ({
            let record = r.sfa@[k];
            &&& record.slot == slot
            &&& record.signature == binary.signature
            &&& record.err == transaction.err
            &&& record.memo == transaction.memo
            &&& record.transaction_index == transaction_index
        }),
{
    if let TransactionWithStatusMeta::Complete { binary, transaction } = tx {
        let occurrence = Occurrence { slot, signature: binary.signature, index: transaction_index };
        let owners = owners_of(transaction.balances());
        let n = transaction.account_keys@.len();
        if k >= n {
            let i = lemma_owner_record_source(
                occurrence,
                transaction,
                owners,
                transaction.balances().len(),
                k - n,
            );
        }
    }
}

/// What a transaction comes to is what is known of it, whatever it is told to
/// be. Without metadata it has no outcome and no records.
pub proof fn law_transaction_is_kept_as_it_is(
    slot: u64,
    tx: TransactionWithStatusMeta,
    is_vote: Option<bool>,
    transaction_index: u32,
    r: TransactionWithBinary,
)
    requires
        call_ensures(TransactionWithBinary::new, (slot, tx, is_vote, transaction_index), r),
    ensures
        r.index == transaction_index,
        is_vote is Some ==> r.is_vote == is_vote->0,
        tx matches TransactionWithStatusMeta::MissingMetadata { binary } ==> {
            &&& r.signature == binary.signature
            &&& r.key == binary.key
            &&& r.protobuf == binary.protobuf
            &&& r.err is None
            &&& r.sfa@.len() == 0
            &&& is_vote is None ==> !r.is_vote
        },
        tx matches TransactionWithStatusMeta::Complete { binary, transaction } ==> {
            &&& r.signature == binary.signature
            &&& r.key == binary.key
            &&& r.protobuf == binary.protobuf
            &&& r.err == transaction.err
            &&& is_vote is None ==> r.is_vote == transaction.is_vote
        },
{
}

/// The first records are those of the accounts of a transaction, one for each
/// and in their order.
pub proof fn law_accounts_have_the_first_records(
    slot: u64,
    tx: TransactionWithStatusMeta,
    is_vote: Option<bool>,
    transaction_index: u32,
    r: TransactionWithBinary,
    k: int,
)
    requires
        call_ensures(TransactionWithBinary::new, (slot, tx, is_vote, transaction_index), r),
        tx is Complete,
        0 <= k < tx->Complete_transaction.account_keys@.len(),
    ensures
        k < r.sfa@.len(),
        r.sfa@[k].address == tx->Complete_transaction.account_keys@[k],
        !r.sfa@[k].token_owner,
        !r.sfa@[k].balance_changed,
{
}

/// Whether the last balance of an account in a list has an amount, or there is
/// none.
pub open spec fn amount_is(balances: Seq<TokenBalance>, account_index: u8, amount: Option<Seq<char>>) -> bool {
    if amount is Some {
        exists|j: int|
            0 <= j < balances.len() && (#[trigger] balances[j]).account_index == account_index
                && balances[j].amount@ == amount->0 && forall|k: int|
                j < k < balances.len() ==> (#[trigger] balances[k]).account_index != account_index
    } else {
        forall|j: int|
            0 <= j < balances.len() ==> (#[trigger] balances[j]).account_index != account_index
    }
}

/// Whether what an account had before a transaction and what it had behind it
/// are not the same.
pub open spec fn differs(transaction: CompleteTransaction, account_index: u8) -> bool {
    forall|before: Option<Seq<char>>, after: Option<Seq<char>>|
        #[trigger] amount_is(transaction.pre_token_balances@, account_index, before)
            && #[trigger] amount_is(transaction.post_token_balances@, account_index, after)
            ==> before != after
}

/// The `i`th balance of a transaction: first those before it, then those
/// behind it.
pub open spec fn balance_at(transaction: CompleteTransaction, i: int) -> TokenBalance {
    if i < transaction.pre_token_balances@.len() {
        transaction.pre_token_balances@[i]
    } else {
        transaction.post_token_balances@[i - transaction.pre_token_balances@.len()]
    }
}

/// The number of balances of a transaction.
pub open spec fn balances_count(transaction: CompleteTransaction) -> nat {
    transaction.pre_token_balances@.len() + transaction.post_token_balances@.len()
}

/// Whether an account of an owner changed.
pub open spec fn owner_differs(transaction: CompleteTransaction, owner: Seq<char>) -> bool {
    exists|i: int|
        0 <= i < balances_count(transaction) && (#[trigger] balance_at(transaction, i)).owner@
            == owner && differs(transaction, balance_at(transaction, i).account_index)
}

/// Whether the `i`th balance is the first one of its owner.
pub open spec fn first_of_owner(transaction: CompleteTransaction, i: int) -> bool {
    &&& 0 <= i < balances_count(transaction)
    &&& forall|j: int|
        0 <= j < i ==> (#[trigger] balance_at(transaction, j)).owner@ != balance_at(
            transaction,
            i,
        ).owner@
}

/// Whether a record is that of the owner of the `i`th balance, which is the
/// first one of that owner: an address that is none of the accounts, and
/// whether an account of the owner changed.
pub open spec fn record_of_owner(
    transaction: CompleteTransaction,
    record: SignatureForAddress,
    i: int,
) -> bool {
    let owner = balance_at(transaction, i).owner@;
    &&& first_of_owner(transaction, i)
    &&& keys::pubkey_of(owner) is Ok
    &&& keys::pubkey_of(owner)->Ok_0 == record.address
    &&& forall|a: int|
        0 <= a < transaction.account_keys@.len() ==> #[trigger] transaction.account_keys@[a]
            != record.address
    &&& record.token_owner
    &&& record.balance_changed <==> owner_differs(transaction, owner)
}

/// The amount of an account is that of its last balance, and no other.
proof fn lemma_amount_is(balances: Seq<TokenBalance>, account_index: u8)
    ensures
        amount_is(balances, account_index, amount_of(balances, account_index)),
        forall|amount: Option<Seq<char>>| #[trigger]
            amount_is(balances, account_index, amount) ==> amount == amount_of(
                balances,
                account_index,
            ),
    decreases balances.len(),
{
    if balances.len() > 0 {
        let init = balances.drop_last();
        let n = balances.len() - 1;
        lemma_amount_is(init, account_index);
        assert(balances.last() == balances[n]);
        if balances[n].account_index == account_index {
            assert(amount_is(balances, account_index, amount_of(balances, account_index)));
            assert forall|amount: Option<Seq<char>>| #[trigger]
                amount_is(balances, account_index, amount) implies amount == amount_of(
                balances,
                account_index,
            ) by {
                if amount is Some {
                    let j = choose|j: int|
                        0 <= j < balances.len() && (#[trigger] balances[j]).account_index
                            == account_index && balances[j].amount@ == amount->0 && forall|k: int|
                            j < k < balances.len() ==> (#[trigger] balances[k]).account_index
                                != account_index;
                    if j < n {
                        assert(balances[n].account_index != account_index);
                    }
                } else {
                    assert(balances[n].account_index != account_index);
                }
            }
        } else {
            assert forall|amount: Option<Seq<char>>| #[trigger]
                amount_is(balances, account_index, amount) <==> amount_is(
                    init,
                    account_index,
                    amount,
                ) by {
                if amount is Some {
                    if amount_is(balances, account_index, amount) {
                        let j = choose|j: int|
                            0 <= j < balances.len() && (#[trigger] balances[j]).account_index
                                == account_index && balances[j].amount@ == amount->0
                                && forall|k: int|
                                j < k < balances.len() ==> (#[trigger] balances[k]).account_index
                                    != account_index;
                        assert(init[j] == balances[j]);
                        assert forall|k: int| j < k < init.len() implies (
                        #[trigger] init[k]).account_index != account_index by {
                            assert(balances[k].account_index != account_index);
                        }
                    }
                    if amount_is(init, account_index, amount) {
                        let j = choose|j: int|
                            0 <= j < init.len() && (#[trigger] init[j]).account_index
                                == account_index && init[j].amount@ == amount->0 && forall|k: int|
                                j < k < init.len() ==> (#[trigger] init[k]).account_index
                                    != account_index;
                        assert(balances[j] == init[j]);
                        assert forall|k: int| j < k < balances.len() implies (
                        #[trigger] balances[k]).account_index != account_index by {
                            if k < n {
                                assert(init[k].account_index != account_index);
                            }
                        }
                    }
                } else {
                    if amount_is(balances, account_index, amount) {
                        assert forall|j: int| 0 <= j < init.len() implies (
                        #[trigger] init[j]).account_index != account_index by {
                            assert(balances[j].account_index != account_index);
                        }
                    }
                    if amount_is(init, account_index, amount) {
                        assert forall|j: int| 0 <= j < balances.len() implies (
                        #[trigger] balances[j]).account_index != account_index by {
                            if j < n {
                                assert(init[j].account_index != account_index);
                            }
                        }
                    }
                }
            }
        }
    }
}

/// An owner changed exactly where an account of the owner did.
proof fn lemma_owner_differs(transaction: CompleteTransaction, owner: Seq<char>)
    ensures
        transaction.owner_changed(owner) <==> owner_differs(transaction, owner),
{
    assert forall|account_index: u8| #[trigger]
        transaction.account_changed(account_index) <==> differs(transaction, account_index) by {
        lemma_amount_is(transaction.pre_token_balances@, account_index);
        lemma_amount_is(transaction.post_token_balances@, account_index);
        let before = amount_of(transaction.pre_token_balances@, account_index);
        let after = amount_of(transaction.post_token_balances@, account_index);
        assert(amount_is(transaction.pre_token_balances@, account_index, before));
        assert(amount_is(transaction.post_token_balances@, account_index, after));
    }
    assert forall|i: int| 0 <= i < balances_count(transaction) implies transaction.balances()[i]
        == #[trigger] balance_at(transaction, i) by {}
    if transaction.owner_changed(owner) {
        let i = choose|i: int|
            0 <= i < transaction.balances().len() && (#[trigger] transaction.balances()[i]).owner@
                == owner && transaction.account_changed(transaction.balances()[i].account_index);
        assert(balance_at(transaction, i) == transaction.balances()[i]);
    }
    if owner_differs(transaction, owner) {
        let i = choose|i: int|
            0 <= i < balances_count(transaction) && (#[trigger] balance_at(transaction, i)).owner@
                == owner && differs(transaction, balance_at(transaction, i).account_index);
        assert(balance_at(transaction, i) == transaction.balances()[i]);
        assert(transaction.account_changed(transaction.balances()[i].account_index));
    }
}

/// The balance that brings a record of a token owner.
proof fn lemma_owner_record_source(
    occurrence: Occurrence,
    transaction: CompleteTransaction,
    owners: Seq<Option<Pubkey>>,
    n: nat,
    k: int,
) -> (i: int)
    requires
        0 <= k < occurrence.owner_records(transaction, owners, n).len(),
    ensures
        0 <= i < n,
        occurrence.brings_owner(transaction, owners, i),
        occurrence.owner_records(transaction, owners, n)[k] == occurrence.owner(
            transaction,
            owners[i]->0,
            transaction.owner_changed(transaction.balances()[i].owner@),
        ),
        occurrence.owner_records(transaction, owners, i as nat).len() == k,
    decreases n,
{
    let init = occurrence.owner_records(transaction, owners, (n - 1) as nat);
    if k < init.len() {
        lemma_owner_record_source(occurrence, transaction, owners, (n - 1) as nat, k)
    } else {
        n - 1
    }
}

/// More balances bring no fewer records.
proof fn lemma_owner_records_grow(
    occurrence: Occurrence,
    transaction: CompleteTransaction,
    owners: Seq<Option<Pubkey>>,
    m: nat,
    n: nat,
)
    requires
        m <= n,
    ensures
        occurrence.owner_records(transaction, owners, m).len() <= occurrence.owner_records(
            transaction,
            owners,
            n,
        ).len(),
    decreases n,
{
    if m < n {
        lemma_owner_records_grow(occurrence, transaction, owners, m, (n - 1) as nat);
    }
}

/// A balance that brings a record is the first one of an owner that has an
/// address and is none of the accounts.
proof fn lemma_brings_owner(occurrence: Occurrence, transaction: CompleteTransaction, i: int)
    requires
        0 <= i < balances_count(transaction),
    ensures
        ({
            let owner = balance_at(transaction, i).owner@;
            occurrence.brings_owner(transaction, owners_of(transaction.balances()), i) <==> {
                &&& first_of_owner(transaction, i)
                &&& keys::pubkey_of(owner) is Ok
                &&& forall|a: int|
                    0 <= a < transaction.account_keys@.len()
                        ==> #[trigger] transaction.account_keys@[a] != keys::pubkey_of(owner)->Ok_0
            }
        }),
        owners_of(transaction.balances())[i] is Some ==> owners_of(transaction.balances())[i]->0
            == keys::pubkey_of(balance_at(transaction, i).owner@)->Ok_0,
{
    let owner = balance_at(transaction, i).owner@;
    assert(transaction.balances()[i] == balance_at(transaction, i));
    assert forall|j: int| 0 <= j < balances_count(transaction) implies transaction.balances()[j]
        == #[trigger] balance_at(transaction, j) by {}
    if transaction.owner_seen(owner, i) {
        let j = choose|j: int| 0 <= j < i && (#[trigger] transaction.balances()[j]).owner@ == owner;
        assert(balance_at(transaction, j).owner@ == owner);
    } else {
        assert forall|j: int| 0 <= j < i implies (#[trigger] balance_at(transaction, j)).owner@
            != owner by {
            assert(transaction.balances()[j].owner@ != owner);
        }
    }
}

/// The records behind those of the accounts are those of token owners, each of
/// an owner that has an address and is none of the accounts. They come in the
/// order in which the owners appear among the balances, and no owner has two.
#[verifier::spinoff_prover]
pub proof fn law_owners_have_the_other_records(
    slot: u64,
    tx: TransactionWithStatusMeta,
    is_vote: Option<bool>,
    transaction_index: u32,
    r: TransactionWithBinary,
    k: int,
    l: int,
) -> (found: (int, int))
    requires
        call_ensures(TransactionWithBinary::new, (slot, tx, is_vote, transaction_index), r),
        tx is Complete,
        tx->Complete_transaction.account_keys@.len() <= k < l < r.sfa@.len() || (
        tx->Complete_transaction.account_keys@.len() <= k == l < r.sfa@.len()),
    ensures
        record_of_owner(tx->Complete_transaction, r.sfa@[k], found.0),
        record_of_owner(tx->Complete_transaction, r.sfa@[l], found.1),
        k < l ==> found.0 < found.1,
{
    let transaction = tx->Complete_transaction;
    let occurrence = Occurrence {
        slot,
        signature: tx->Complete_binary.signature,
        index: transaction_index,
    };
    let owners = owners_of(transaction.balances());
    let n = transaction.account_keys@.len();
    let all = occurrence.owner_records(transaction, owners, transaction.balances().len());
    let i = lemma_owner_record_source(
        occurrence,
        transaction,
        owners,
        transaction.balances().len(),
        k - n,
    );
    let j = lemma_owner_record_source(
        occurrence,
        transaction,
        owners,
        transaction.balances().len(),
        l - n,
    );
    assert(r.sfa@[k] == all[k - n]);
    assert(r.sfa@[l] == all[l - n]);
    lemma_brings_owner(occurrence, transaction, i);
    lemma_brings_owner(occurrence, transaction, j);
    lemma_owner_differs(transaction, balance_at(transaction, i).owner@);
    lemma_owner_differs(transaction, balance_at(transaction, j).owner@);
    if k < l && j <= i {
        lemma_owner_records_grow(occurrence, transaction, owners, j as nat, i as nat);
    }
    (i, j)
}

/// Every owner of a token account that has an address and is none of the
/// accounts has a record.
#[verifier::spinoff_prover]
pub proof fn law_every_owner_has_a_record(
    slot: u64,
    tx: TransactionWithStatusMeta,
    is_vote: Option<bool>,
    transaction_index: u32,
    r: TransactionWithBinary,
    i: int,
) -> (k: int)
    requires
        call_ensures(TransactionWithBinary::new, (slot, tx, is_vote, transaction_index), r),
        tx is Complete,
        first_of_owner(tx->Complete_transaction, i),
        keys::pubkey_of(balance_at(tx->Complete_transaction, i).owner@) is Ok,
        forall|a: int|
            0 <= a < tx->Complete_transaction.account_keys@.len()
                ==> #[trigger] tx->Complete_transaction.account_keys@[a] != keys::pubkey_of(
                balance_at(tx->Complete_transaction, i).owner@,
            )->Ok_0,
    ensures
        tx->Complete_transaction.account_keys@.len() <= k < r.sfa@.len(),
        record_of_owner(tx->Complete_transaction, r.sfa@[k], i),
{
    let transaction = tx->Complete_transaction;
    let occurrence = Occurrence {
        slot,
        signature: tx->Complete_binary.signature,
        index: transaction_index,
    };
    let owners = owners_of(transaction.balances());
    let total = transaction.balances().len();
    lemma_brings_owner(occurrence, transaction, i);
    lemma_owner_differs(transaction, balance_at(transaction, i).owner@);
    let m = lemma_owner_record_of(occurrence, transaction, owners, total, i);
    let k = transaction.account_keys@.len() + m;
    assert(r.sfa@[k] == occurrence.owner_records(transaction, owners, total)[m]);
    assert(transaction.balances()[i] == balance_at(transaction, i));
    k
}

/// The record that a balance brings.
proof fn lemma_owner_record_of(
    occurrence: Occurrence,
    transaction: CompleteTransaction,
    owners: Seq<Option<Pubkey>>,
    n: nat,
    i: int,
) -> (m: int)
    requires
        0 <= i < n,
        occurrence.brings_owner(transaction, owners, i),
    ensures
        0 <= m < occurrence.owner_records(transaction, owners, n).len(),
        occurrence.owner_records(transaction, owners, n)[m] == occurrence.owner(
            transaction,
            owners[i]->0,
            transaction.owner_changed(transaction.balances()[i].owner@),
        ),
    decreases n,
{
    if i == n - 1 {
        occurrence.owner_records(transaction, owners, (n - 1) as nat).len() as int
    } else {
        lemma_owner_record_of(occurrence, transaction, owners, (n - 1) as nat, i)
    }
}

} // verus!
