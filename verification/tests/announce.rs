use mutual_credit::announce::announcements;
use mutual_credit::error::MutualCreditError;
use mutual_credit::hashes::{ActionId, AgentKey};
use mutual_credit::records::{EntryShape, TransactionRecord};
use mutual_credit::transaction::{Transaction, TransactionParty};

fn hash(n: u8) -> ActionId {
    ActionId::new(vec![n; 39])
}

fn key(n: u8) -> AgentKey {
    AgentKey::new(vec![n; 39])
}

fn txn(spender: u8, recipient: u8) -> Transaction {
    Transaction {
        spender: TransactionParty { agent_pub_key: key(spender), previous_transaction_hash: None, resulting_balance: 0 },
        recipient: TransactionParty { agent_pub_key: key(recipient), previous_transaction_hash: None, resulting_balance: 0 },
        amount: 0,
        info: vec![],
    }
}

fn record(address: u8, entry: Option<EntryShape>) -> TransactionRecord {
    TransactionRecord { action_address: hash(address), entry }
}

#[test]
fn commit_announces_new_transactions_to_their_other_party() {
    let records = vec![
        record(10, Some(EntryShape::CounterSigned(Some(txn(1, 2))))),
        record(11, Some(EntryShape::CounterSigned(Some(txn(3, 1))))),
    ];
    let committed = vec![hash(5), hash(11), hash(10)];
    let (announced, failure) = announcements(&key(1), &committed, &records);
    assert!(failure.is_none());
    assert_eq!(announced.len(), 2);
    assert_eq!(announced[0].transaction_hash.bytes, hash(11).bytes);
    assert_eq!(announced[0].counterparty.bytes, key(3).bytes);
    assert_eq!(announced[1].transaction_hash.bytes, hash(10).bytes);
    assert_eq!(announced[1].counterparty.bytes, key(2).bytes);
}

#[test]
fn commit_announcements_stop_at_an_unreadable_record() {
    let records = vec![
        record(10, Some(EntryShape::CounterSigned(Some(txn(1, 2))))),
        record(11, Some(EntryShape::Other)),
        record(12, Some(EntryShape::CounterSigned(Some(txn(3, 4))))),
    ];
    let (announced, failure) = announcements(&key(1), &vec![hash(10), hash(11), hash(12)], &records);
    assert_eq!(announced.len(), 1);
    assert_eq!(failure, Some(MutualCreditError::MalformedEntry));
    let (announced, failure) = announcements(&key(1), &vec![hash(12), hash(10)], &records);
    assert!(announced.is_empty());
    assert_eq!(failure, Some(MutualCreditError::NotAParticipant));
    let (announced, failure) = announcements(&key(1), &vec![], &records);
    assert!(announced.is_empty() && failure.is_none());
}
