use alpamayo::rpc::keys::{Pubkey, Signature};
use alpamayo::source::transaction::{
    CompleteTransaction, TokenBalance, TransactionBinary, TransactionWithBinary,
    TransactionWithStatusMeta,
};
use solana_transaction::TransactionError;

fn key(byte: u8) -> Pubkey {
    Pubkey { bytes: [byte; 32] }
}

fn shown(byte: u8) -> String {
    solana_pubkey::Pubkey::from([byte; 32]).to_string()
}

fn balance(account_index: u8, owner: String, amount: &str) -> TokenBalance {
    TokenBalance { account_index, owner, amount: amount.to_string() }
}

fn binary() -> TransactionBinary {
    TransactionBinary {
        signature: Signature { bytes: [9u8; 64] },
        key: [1, 2, 3, 4, 5, 6, 7, 8],
        protobuf: vec![10, 20],
    }
}

fn complete(
    account_keys: Vec<Pubkey>,
    pre_token_balances: Vec<TokenBalance>,
    post_token_balances: Vec<TokenBalance>,
) -> TransactionWithStatusMeta {
    TransactionWithStatusMeta::Complete {
        binary: binary(),
        transaction: CompleteTransaction {
            account_keys,
            err: Some(TransactionError::AccountInUse),
            memo: Some("[3] abc".to_string()),
            pre_token_balances,
            post_token_balances,
            is_vote: true,
        },
    }
}

fn owners(transaction: &TransactionWithBinary) -> Vec<(u8, bool)> {
    transaction
        .sfa
        .iter()
        .filter(|record| record.token_owner)
        .map(|record| (record.address.bytes[0], record.balance_changed))
        .collect()
}

#[test]
fn without_metadata_there_are_no_records() {
    let tx = TransactionWithStatusMeta::MissingMetadata { binary: binary() };
    let transaction = TransactionWithBinary::new(5, tx, None, 7);
    assert_eq!(transaction.signature.bytes, [9u8; 64]);
    assert!(!transaction.is_vote);
    assert!(transaction.err.is_none());
    assert!(transaction.sfa.is_empty());
    assert_eq!(transaction.key, [1, 2, 3, 4, 5, 6, 7, 8]);
    assert_eq!(transaction.protobuf, [10, 20]);
    assert_eq!(transaction.index, 7);
    let tx = TransactionWithStatusMeta::MissingMetadata { binary: binary() };
    assert!(TransactionWithBinary::new(5, tx, Some(true), 7).is_vote);
}

#[test]
fn accounts_have_records() {
    let transaction =
        TransactionWithBinary::new(5, complete(vec![key(1), key(2)], vec![], vec![]), None, 7);
    assert!(transaction.is_vote);
    assert_eq!(transaction.err, Some(TransactionError::AccountInUse));
    assert_eq!(transaction.sfa.len(), 2);
    let record = &transaction.sfa[1];
    assert_eq!(record.slot, 5);
    assert_eq!(record.address.bytes, [2u8; 32]);
    assert_eq!(record.signature.bytes, [9u8; 64]);
    assert_eq!(record.err, Some(TransactionError::AccountInUse));
    assert_eq!(record.memo, Some("[3] abc".to_string()));
    assert_eq!(record.transaction_index, 7);
    assert!(!record.token_owner && !record.balance_changed);
    let known = complete(vec![key(1)], vec![], vec![]);
    assert!(!TransactionWithBinary::new(5, known, Some(false), 7).is_vote);
}

#[test]
fn token_owners_have_records() {
    let transaction = TransactionWithBinary::new(
        5,
        complete(
            vec![key(1)],
            vec![
                balance(0, shown(1), "10"),
                balance(1, shown(2), "10"),
                balance(2, shown(3), "10"),
                balance(3, "not an address".to_string(), "10"),
            ],
            vec![
                balance(1, shown(2), "10"),
                balance(2, shown(3), "11"),
                balance(4, shown(4), "1"),
            ],
        ),
        None,
        7,
    );
    assert_eq!(owners(&transaction), [(2, false), (3, true), (4, true)]);
    assert_eq!(transaction.sfa.len(), 4);
}

#[test]
fn an_owner_changes_with_any_account() {
    let transaction = TransactionWithBinary::new(
        5,
        complete(
            vec![],
            vec![balance(1, shown(2), "10"), balance(2, shown(2), "20")],
            vec![balance(1, shown(2), "10"), balance(2, shown(2), "25")],
        ),
        None,
        7,
    );
    assert_eq!(owners(&transaction), [(2, true)]);
}

#[test]
fn the_last_balance_of_an_account_counts() {
    let transaction = TransactionWithBinary::new(
        5,
        complete(
            vec![],
            vec![balance(1, shown(2), "5"), balance(1, shown(2), "10")],
            vec![balance(1, shown(2), "10")],
        ),
        None,
        7,
    );
    assert_eq!(owners(&transaction), [(2, false)]);
}

#[test]
fn owners_are_those_that_were_read() {
    let tx = complete(
        vec![key(1)],
        vec![balance(1, "a".to_string(), "1"), balance(2, "b".to_string(), "1")],
        vec![balance(1, "a".to_string(), "1")],
    );
    let read = vec![Some(key(6)), None, Some(key(6))];
    let transaction = TransactionWithBinary::with_owners(5, tx, None, 7, &read);
    assert_eq!(owners(&transaction), [(6, false)]);
}

#[test]
fn every_address_has_a_record() {
    let transaction = TransactionWithBinary::new(
        5,
        complete(
            vec![key(1), key(2)],
            vec![balance(1, shown(2), "1"), balance(2, shown(3), "1")],
            vec![balance(9, shown(4), "1")],
        ),
        None,
        7,
    );
    let found: Vec<u8> = transaction.sfa.iter().map(|record| record.address.bytes[0]).collect();
    assert_eq!(found, [1, 2, 3, 4]);
}

#[test]
fn the_vote_flag_changes_nothing_else() {
    let make = |is_vote| {
        let tx = complete(
            vec![key(1)],
            vec![balance(1, shown(2), "1")],
            vec![balance(1, shown(2), "2")],
        );
        TransactionWithBinary::new(5, tx, is_vote, 7)
    };
    let (vote, other) = (make(Some(true)), make(Some(false)));
    assert!(vote.is_vote && !other.is_vote);
    assert_eq!((vote.index, other.index), (7, 7));
    assert_eq!(vote.key, other.key);
    assert_eq!(vote.key, [1, 2, 3, 4, 5, 6, 7, 8]);
    assert_eq!(vote.signature.bytes, other.signature.bytes);
    assert_eq!(vote.err, other.err);
    assert_eq!(vote.protobuf, other.protobuf);
    assert_eq!(owners(&vote), [(2, true)]);
    assert_eq!(format!("{:?}", vote.sfa), format!("{:?}", other.sfa));
}
