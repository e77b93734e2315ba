use mutual_credit::error::MutualCreditError;
use mutual_credit::hashes::{ActionId, AgentKey};
use mutual_credit::order::{compare_bytes, ByteOrder};
use mutual_credit::records::{
    entry_to_transaction, latest_transaction, present_records, records_to_transactions, EntryShape, TransactionRecord,
};
use mutual_credit::transaction::{Transaction, TransactionParty};

fn hash(n: u8) -> ActionId {
    ActionId::new(vec![n; 39])
}

fn txn(amount: f64) -> Transaction {
    Transaction {
        spender: TransactionParty { agent_pub_key: AgentKey::new(vec![1; 39]), previous_transaction_hash: None, resulting_balance: (-amount).to_bits() },
        recipient: TransactionParty { agent_pub_key: AgentKey::new(vec![2; 39]), previous_transaction_hash: None, resulting_balance: amount.to_bits() },
        amount: amount.to_bits(),
        info: vec![],
    }
}

fn record(address: Vec<u8>, amount: f64) -> TransactionRecord {
    TransactionRecord { action_address: ActionId::new(address), entry: Some(EntryShape::CounterSigned(Some(txn(amount)))) }
}

#[test]
fn entries_that_hold_no_transaction() {
    assert_eq!(entry_to_transaction(EntryShape::Other).err(), Some(MutualCreditError::MalformedEntry));
    assert_eq!(entry_to_transaction(EntryShape::CounterSigned(None)).err(), Some(MutualCreditError::TransactionDecodeFailed));
    assert_eq!(f64::from_bits(entry_to_transaction(EntryShape::CounterSigned(Some(txn(3.0)))).unwrap().amount), 3.0);
}

#[test]
fn records_become_a_map_ordered_by_hash() {
    let records = vec![record(vec![3, 0], 1.0), record(vec![1, 5], 2.0), record(vec![2], 3.0), record(vec![1], 4.0)];
    let map = records_to_transactions(records).unwrap();
    assert_eq!(map.len(), 4);
    let entries = map.into_entries();
    let keys: Vec<Vec<u8>> = entries.iter().map(|e| e.0.bytes.clone()).collect();
    assert_eq!(keys, vec![vec![1], vec![1, 5], vec![2], vec![3, 0]]);
    let amounts: Vec<f64> = entries.iter().map(|e| f64::from_bits(e.1.amount)).collect();
    assert_eq!(amounts, vec![4.0, 2.0, 3.0, 1.0]);
}

#[test]
fn later_record_with_same_hash_wins() {
    let records = vec![record(vec![7], 1.0), record(vec![8], 2.0), record(vec![7], 5.0)];
    let entries = records_to_transactions(records).unwrap().into_entries();
    assert_eq!(entries.len(), 2);
    assert_eq!(entries[0].0.bytes, vec![7]);
    assert_eq!(f64::from_bits(entries[0].1.amount), 5.0);
}

#[test]
fn first_bad_record_fails_the_reading() {
    let records = vec![
        record(vec![1], 1.0),
        TransactionRecord { action_address: hash(2), entry: None },
        TransactionRecord { action_address: hash(3), entry: Some(EntryShape::Other) },
    ];
    assert_eq!(records_to_transactions(records).err(), Some(MutualCreditError::MalformedTransaction));
    let records = vec![TransactionRecord { action_address: hash(3), entry: Some(EntryShape::Other) }, record(vec![1], 1.0)];
    assert_eq!(records_to_transactions(records).err(), Some(MutualCreditError::MalformedEntry));
    assert_eq!(records_to_transactions(vec![]).unwrap().len(), 0);
}

#[test]
fn missing_records_are_dropped() {
    let found = present_records(vec![None, Some(record(vec![4], 1.0)), None, Some(record(vec![2], 2.0))]);
    assert_eq!(found.len(), 2);
    assert_eq!(found[0].action_address.bytes, vec![4]);
    assert_eq!(found[1].action_address.bytes, vec![2]);
}

#[test]
fn latest_transaction_needs_its_record() {
    assert_eq!(latest_transaction(hash(1), None).err(), Some(MutualCreditError::LatestTransactionMissing));
    assert_eq!(latest_transaction(hash(1), Some(None)).err(), Some(MutualCreditError::MalformedTransaction));
    let (h, t) = latest_transaction(hash(1), Some(Some(EntryShape::CounterSigned(Some(txn(6.0)))))).unwrap();
    assert_eq!(h.bytes, vec![1u8; 39]);
    assert_eq!(f64::from_bits(t.amount), 6.0);
}

#[test]
fn byte_order_is_lexicographic() {
    assert_eq!(compare_bytes(&vec![1, 2], &vec![1, 3]), ByteOrder::Before);
    assert_eq!(compare_bytes(&vec![1], &vec![1, 0]), ByteOrder::Before);
    assert_eq!(compare_bytes(&vec![2], &vec![1, 9]), ByteOrder::After);
    assert_eq!(compare_bytes(&vec![], &vec![]), ByteOrder::Same);
    assert_eq!(compare_bytes(&vec![4, 4], &vec![4, 4]), ByteOrder::Same);
}
