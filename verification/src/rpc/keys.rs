//! Addresses, signatures and hashes, and what is computed from them.

use std::str::FromStr;
use vstd::prelude::*;

verus! {

/// A 32 byte account address.
#[derive(Debug, Clone, Copy)]
pub struct Pubkey {
    pub bytes: [u8; 32],
}

/// A 64 byte transaction signature.
#[derive(Debug, Clone, Copy)]
pub struct Signature {
    pub bytes: [u8; 64],
}

/// A 32 byte block hash.
#[derive(Debug, Clone, Copy)]
pub struct Blockhash {
    pub bytes: [u8; 32],
}

/// Why a text is not an address, a signature or a hash.
#[derive(Debug, Clone, Copy, PartialEq, Eq, Structural)]
pub enum ParseError {
    /// The text does not stand for the right number of bytes.
    WrongSize,
    /// The text holds a character that is not a base58 digit.
    Invalid,
}

impl Pubkey {
    /// Whether two addresses are the same.
    pub fn same(&self, other: &Pubkey) -> (r: bool)
        ensures
            r == (*self == *other),
    {
        let mut i: usize = 0;
        while i < 32
            invariant
                i <= 32,
                forall|j: int| 0 <= j < i ==> self.bytes[j] == other.bytes[j],
            decreases 32 - i,
        {
            if self.bytes[i] != other.bytes[i] {
                return false;
            }
            i = i + 1;
        }
        assert(self.bytes =~= other.bytes);
        true
    }
}

/// Whether `key` is one of `keys`.
pub fn contains_key(keys: &Vec<Pubkey>, key: &Pubkey) -> (r: bool)
    ensures
        r == keys@.contains(*key),
{
    let mut i: usize = 0;
    while i < keys.len()
        invariant
            i <= keys.len(),
            forall|j: int| 0 <= j < i ==> keys@[j] != *key,
        decreases keys.len() - i,
    {
        if keys[i].same(key) {
            return true;
        }
        i = i + 1;
    }
    false
}

// ------------------------------------------------------- base58 texts

/// What `solana_pubkey::Pubkey::from_str` makes of a text.
pub uninterp spec fn pubkey_of(text: Seq<char>) -> Result<Pubkey, ParseError>;

/// What `solana_signature::Signature::from_str` makes of a text.
pub uninterp spec fn signature_of(text: Seq<char>) -> Result<Signature, ParseError>;

/// What `solana_hash::Hash::from_str` makes of a text.
pub uninterp spec fn hash_of(text: Seq<char>) -> Result<Blockhash, ParseError>;

/// The text that `solana_signature::Signature` displays as.
pub uninterp spec fn signature_text_of(signature: Signature) -> Seq<char>;

/// Calls `solana_pubkey::Pubkey::from_str`: decodes a base58 text into the 32
/// bytes of an address. The result depends on the text alone.
#[verifier::external_body]
pub(crate) fn parse_pubkey(text: &str) -> (r: Result<Pubkey, ParseError>)
    ensures
        r == pubkey_of(text@),
{
    match solana_pubkey::Pubkey::from_str(text) {
        Ok(key) => Ok(Pubkey { bytes: key.to_bytes() }),
        Err(solana_pubkey::ParsePubkeyError::WrongSize) => Err(ParseError::WrongSize),
        Err(solana_pubkey::ParsePubkeyError::Invalid) => Err(ParseError::Invalid),
    }
}

/// Calls `solana_signature::Signature::from_str`: decodes a base58 text into
/// the 64 bytes of a signature. The result depends on the text alone.
#[verifier::external_body]
pub(crate) fn parse_signature(text: &str) -> (r: Result<Signature, ParseError>)
    ensures
        r == signature_of(text@),
{
    match solana_signature::Signature::from_str(text) {
        Ok(signature) => Ok(Signature { bytes: *signature.as_array() }),
        Err(solana_signature::ParseSignatureError::WrongSize) => Err(ParseError::WrongSize),
        Err(solana_signature::ParseSignatureError::Invalid) => Err(ParseError::Invalid),
    }
}

/// Calls `solana_hash::Hash::from_str`: decodes a base58 text into the 32
/// bytes of a hash. The result depends on the text alone.
#[verifier::external_body]
pub(crate) fn parse_hash(text: &str) -> (r: Result<Blockhash, ParseError>)
    ensures
        r == hash_of(text@),
{
    match solana_hash::Hash::from_str(text) {
        Ok(hash) => Ok(Blockhash { bytes: hash.to_bytes() }),
        Err(solana_hash::ParseHashError::WrongSize) => Err(ParseError::WrongSize),
        Err(solana_hash::ParseHashError::Invalid) => Err(ParseError::Invalid),
    }
}

/// Calls `to_string` of `solana_signature::Signature`: its base58 text, which
/// depends on the bytes of the signature alone.
#[verifier::external_body]
pub(crate) fn signature_text(signature: &Signature) -> (r: String)
    ensures
        r@ == signature_text_of(*signature),
{
    solana_signature::Signature::from(signature.bytes).to_string()
}

// ------------------------------------------------------- lists of texts

/// What comes of reading a list of addresses: all of them, or the first error.
pub open spec fn pubkeys_of(texts: Seq<String>) -> Result<Seq<Pubkey>, ParseError>
    decreases texts.len(),
{
    if texts.len() == 0 {
        Ok(Seq::empty())
    } else {
        match (pubkeys_of(texts.drop_last()), pubkey_of(texts.last()@)) {
            (Err(error), _) => Err(error),
            (Ok(_), Err(error)) => Err(error),
            (Ok(init), Ok(key)) => Ok(init.push(key)),
        }
    }
}

/// What comes of reading a list of signatures: all of them, or the first
/// error.
pub open spec fn signatures_of(texts: Seq<String>) -> Result<Seq<Signature>, ParseError>
    decreases texts.len(),
{
    if texts.len() == 0 {
        Ok(Seq::empty())
    } else {
        match (signatures_of(texts.drop_last()), signature_of(texts.last()@)) {
            (Err(error), _) => Err(error),
            (Ok(_), Err(error)) => Err(error),
            (Ok(init), Ok(signature)) => Ok(init.push(signature)),
        }
    }
}

/// Where reading the first texts of a list fails, reading the list fails in
/// the same way.
proof fn lemma_pubkeys_error(texts: Seq<String>, i: int)
    requires
        0 <= i <= texts.len(),
        pubkeys_of(texts.take(i)) is Err,
    ensures
        pubkeys_of(texts) == pubkeys_of(texts.take(i)),
    decreases texts.len() - i,
{
    if i == texts.len() {
        assert(texts.take(i) =~= texts);
    } else {
        assert(texts.take(i + 1).drop_last() =~= texts.take(i));
        lemma_pubkeys_error(texts, i + 1);
    }
}

/// Where reading the first texts of a list fails, reading the list fails in
/// the same way.
proof fn lemma_signatures_error(texts: Seq<String>, i: int)
    requires
        0 <= i <= texts.len(),
        signatures_of(texts.take(i)) is Err,
    ensures
        signatures_of(texts) == signatures_of(texts.take(i)),
    decreases texts.len() - i,
{
    if i == texts.len() {
        assert(texts.take(i) =~= texts);
    } else {
        assert(texts.take(i + 1).drop_last() =~= texts.take(i));
        lemma_signatures_error(texts, i + 1);
    }
}

/// A list of addresses is read exactly where each of them is, one by one and
/// in their order.
pub proof fn law_pubkeys_are_read_one_by_one(texts: Seq<String>)
    ensures
        pubkeys_of(texts) is Ok <==> forall|i: int|
            0 <= i < texts.len() ==> pubkey_of((#[trigger] texts[i])@) is Ok,
        pubkeys_of(texts) matches Ok(keys) ==> {
            &&& keys.len() == texts.len()
            &&& forall|i: int|
                0 <= i < texts.len() ==> pubkey_of((#[trigger] texts[i])@)->Ok_0 == keys[i]
        },
        pubkeys_of(texts) matches Err(error) ==> exists|i: int|
            0 <= i < texts.len() && pubkey_of((#[trigger] texts[i])@) == Err::<Pubkey, ParseError>(
                error,
            ) && forall|j: int| 0 <= j < i ==> pubkey_of((#[trigger] texts[j])@) is Ok,
    decreases texts.len(),
{
    if texts.len() > 0 {
        let init = texts.drop_last();
        law_pubkeys_are_read_one_by_one(init);
        assert(forall|i: int| 0 <= i < init.len() ==> #[trigger] init[i] == texts[i]);
        assert(texts.last() == texts[texts.len() - 1]);
        if pubkeys_of(texts) is Err {
            let error = pubkeys_of(texts)->Err_0;
            if pubkeys_of(init) is Err {
                let i = choose|i: int|
                    0 <= i < init.len() && pubkey_of((#[trigger] init[i])@) == Err::<Pubkey, ParseError>(
                        error,
                    ) && forall|j: int| 0 <= j < i ==> pubkey_of((#[trigger] init[j])@) is Ok;
                assert(texts[i] == init[i]);
                assert forall|j: int| 0 <= j < i implies pubkey_of((#[trigger] texts[j])@) is Ok by {
                    assert(init[j] == texts[j]);
                }
            } else {
                assert(pubkey_of(texts[texts.len() - 1]@) == Err::<Pubkey, ParseError>(error));
                assert forall|j: int| 0 <= j < texts.len() - 1 implies pubkey_of(
                    (#[trigger] texts[j])@,
                ) is Ok by {
                    assert(init[j] == texts[j]);
                }
            }
        }
        if pubkeys_of(texts) is Ok {
            assert forall|i: int| 0 <= i < texts.len() implies pubkey_of(
                (#[trigger] texts[i])@,
            ) is Ok by {
                if i < init.len() {
                    assert(init[i] == texts[i]);
                }
            }
            assert forall|i: int| 0 <= i < texts.len() implies pubkey_of(
                (#[trigger] texts[i])@,
            )->Ok_0 == pubkeys_of(texts)->Ok_0[i] by {
                if i < init.len() {
                    assert(init[i] == texts[i]);
                }
            }
        }
    }
}

/// A list of signatures is read exactly where each of them is, one by one and
/// in their order.
pub proof fn law_signatures_are_read_one_by_one(texts: Seq<String>)
    ensures
        signatures_of(texts) is Ok <==> forall|i: int|
            0 <= i < texts.len() ==> signature_of((#[trigger] texts[i])@) is Ok,
        signatures_of(texts) matches Ok(signatures) ==> {
            &&& signatures.len() == texts.len()
            &&& forall|i: int|
                0 <= i < texts.len() ==> signature_of((#[trigger] texts[i])@)->Ok_0
                    == signatures[i]
        },
        signatures_of(texts) matches Err(error) ==> exists|i: int|
            0 <= i < texts.len() && signature_of((#[trigger] texts[i])@) == Err::<Signature, ParseError>(
                error,
            ) && forall|j: int| 0 <= j < i ==> signature_of((#[trigger] texts[j])@) is Ok,
    decreases texts.len(),
{
    if texts.len() > 0 {
        let init = texts.drop_last();
        law_signatures_are_read_one_by_one(init);
        assert(forall|i: int| 0 <= i < init.len() ==> #[trigger] init[i] == texts[i]);
        assert(texts.last() == texts[texts.len() - 1]);
        if signatures_of(texts) is Err {
            let error = signatures_of(texts)->Err_0;
            if signatures_of(init) is Err {
                let i = choose|i: int|
                    0 <= i < init.len() && signature_of((#[trigger] init[i])@) == Err::<Signature, ParseError>(
                        error,
                    ) && forall|j: int| 0 <= j < i ==> signature_of((#[trigger] init[j])@) is Ok;
                assert(texts[i] == init[i]);
                assert forall|j: int| 0 <= j < i implies signature_of((#[trigger] texts[j])@) is Ok by {
                    assert(init[j] == texts[j]);
                }
            } else {
                assert(signature_of(texts[texts.len() - 1]@) == Err::<Signature, ParseError>(error));
                assert forall|j: int| 0 <= j < texts.len() - 1 implies signature_of(
                    (#[trigger] texts[j])@,
                ) is Ok by {
                    assert(init[j] == texts[j]);
                }
            }
        }
        if signatures_of(texts) is Ok {
            assert forall|i: int| 0 <= i < texts.len() implies signature_of(
                (#[trigger] texts[i])@,
            ) is Ok by {
                if i < init.len() {
                    assert(init[i] == texts[i]);
                }
            }
            assert forall|i: int| 0 <= i < texts.len() implies signature_of(
                (#[trigger] texts[i])@,
            )->Ok_0 == signatures_of(texts)->Ok_0[i] by {
                if i < init.len() {
                    assert(init[i] == texts[i]);
                }
            }
        }
    }
}

/// Reads a list of addresses.
pub fn verify_pubkeys(texts: &Vec<String>) -> (r: Result<Vec<Pubkey>, ParseError>)
    ensures
        match r {
            Ok(keys) => pubkeys_of(texts@) == Ok::<Seq<Pubkey>, ParseError>(keys@),
            Err(error) => pubkeys_of(texts@) == Err::<Seq<Pubkey>, ParseError>(error),
        },
{
    let mut found: Vec<Pubkey> = Vec::new();
    let mut i: usize = 0;
    assert(texts@.take(0) =~= Seq::<String>::empty());
    while i < texts.len()
        invariant
            i <= texts.len(),
            pubkeys_of(texts@.take(i as int)) == Ok::<Seq<Pubkey>, ParseError>(found@),
        decreases texts.len() - i,
    {
        let ghost next = texts@.take(i + 1);
        assert(next.drop_last() =~= texts@.take(i as int));
        assert(next.last() == texts@[i as int]);
        match parse_pubkey(texts[i].as_str()) {
            Ok(key) => found.push(key),
            Err(error) => {
                proof {
                    lemma_pubkeys_error(texts@, i + 1);
                }
                return Err(error);
            },
        }
        i = i + 1;
    }
    assert(texts@.take(i as int) =~= texts@);
    Ok(found)
}

/// Reads a list of signatures.
pub fn verify_signatures(texts: &Vec<String>) -> (r: Result<Vec<Signature>, ParseError>)
    ensures
        match r {
            Ok(signatures) => signatures_of(texts@) == Ok::<Seq<Signature>, ParseError>(
                signatures@,
            ),
            Err(error) => signatures_of(texts@) == Err::<Seq<Signature>, ParseError>(error),
        },
{
    let mut found: Vec<Signature> = Vec::new();
    let mut i: usize = 0;
    assert(texts@.take(0) =~= Seq::<String>::empty());
    while i < texts.len()
        invariant
            i <= texts.len(),
            signatures_of(texts@.take(i as int)) == Ok::<Seq<Signature>, ParseError>(found@),
        decreases texts.len() - i,
    {
        let ghost next = texts@.take(i + 1);
        assert(next.drop_last() =~= texts@.take(i as int));
        assert(next.last() == texts@[i as int]);
        match parse_signature(texts[i].as_str()) {
            Ok(signature) => found.push(signature),
            Err(error) => {
                proof {
                    lemma_signatures_error(texts@, i + 1);
                }
                return Err(error);
            },
        }
        i = i + 1;
    }
    assert(texts@.take(i as int) =~= texts@);
    Ok(found)
}

// ------------------------------------------------------- epochs

/// The number of slots in an epoch.
pub const SLOTS_PER_EPOCH: u64 = 432_000;

/// The epoch that holds a slot.
pub open spec fn epoch_of(slot: u64) -> u64 {
    slot / SLOTS_PER_EPOCH
}

/// The first slot of an epoch, or the largest slot where that is too large.
pub open spec fn first_slot_of(epoch: u64) -> u64 {
    if epoch * SLOTS_PER_EPOCH <= u64::MAX {
        (epoch * SLOTS_PER_EPOCH) as u64
    } else {
        u64::MAX
    }
}

/// Calls `EpochSchedule::get_epoch` of `solana_epoch_schedule`, on the
/// schedule without warmup: epochs of 432000 slots, counted from slot 0.
#[verifier::external_body]
pub(crate) fn get_epoch(slot: u64) -> (r: u64)
    ensures
        r == epoch_of(slot),
{
    solana_epoch_schedule::EpochSchedule::without_warmup().get_epoch(slot)
}

/// Calls `EpochSchedule::get_first_slot_in_epoch` of `solana_epoch_schedule`,
/// on the schedule without warmup: the product of the epoch and 432000, which
/// saturates.
#[verifier::external_body]
pub(crate) fn get_first_slot_in_epoch(epoch: u64) -> (r: u64)
    ensures
        r == first_slot_of(epoch),
{
    solana_epoch_schedule::EpochSchedule::without_warmup().get_first_slot_in_epoch(epoch)
}

/// The partition that `EpochRewardsHasher` assigns to an address, out of
/// `partitions` many, for the block hash `seed`.
pub uninterp spec fn partition_of(partitions: usize, seed: Blockhash, address: Pubkey) -> usize;

/// Calls `EpochRewardsHasher::hash_address_to_partition` of
/// `solana_epoch_rewards_hasher`. The partition depends on the arguments
/// alone; it is below the number of partitions, and zero where there are none.
#[verifier::external_body]
pub(crate) fn hash_address_to_partition(partitions: usize, seed: &Blockhash, address: &Pubkey) -> (r: usize)
    ensures
        r == partition_of(partitions, *seed, *address),
        partitions > 0 ==> r < partitions,
        partitions == 0 ==> r == 0,
{
    let seed = solana_hash::Hash::new_from_array(seed.bytes);
    let address = solana_pubkey::Pubkey::from(address.bytes);
    solana_epoch_rewards_hasher::EpochRewardsHasher::new(partitions, &seed).hash_address_to_partition(&address)
}

/// An epoch begins where its first slot says, and holds `SLOTS_PER_EPOCH` slots.
pub proof fn law_epoch_of_its_slots(epoch: u64, slot: u64)
    requires
        (epoch + 1) * SLOTS_PER_EPOCH <= u64::MAX,
    ensures
        epoch_of(slot) == epoch <==> first_slot_of(epoch) <= slot
            && slot < first_slot_of((epoch + 1) as u64),
{
}

} // verus!
