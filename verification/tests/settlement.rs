use hdk::prelude::{ActionHash, SerializedBytes, UnsafeBytes};
use mutual_credit::error::MutualCreditError;
use mutual_credit::hashes::{ActionId, AgentKey};
use mutual_credit::request::TransactionRequest;
use mutual_credit::settlement::{settled_request, settlement_info, settlement_of, settling_transaction};
use mutual_credit::transaction::{Transaction, TransactionParty};

fn action(n: u8) -> ActionId {
    let mut bytes = vec![0x84, 0x29, 0x24];
    bytes.extend(vec![n; 36]);
    ActionId::new(bytes)
}

fn key(n: u8) -> AgentKey {
    AgentKey::new(vec![n; 39])
}

fn request() -> TransactionRequest {
    TransactionRequest { spender_pub_key: key(1), recipient_pub_key: key(2), amount: 10.0f64.to_bits() }
}

#[test]
fn settlement_info_is_the_serialized_request_hash() {
    let info = settlement_info(&action(5)).unwrap();
    let mut expected = vec![0xc4, 39];
    expected.extend(action(5).bytes);
    assert_eq!(info, expected);
}

#[test]
fn settlement_info_reads_back_as_the_request_hash() {
    let info = settlement_info(&action(6)).unwrap();
    let decoded = ActionHash::try_from(SerializedBytes::from(UnsafeBytes::from(info))).unwrap();
    assert_eq!(decoded.get_raw_39().to_vec(), action(6).bytes);
}

#[test]
fn settlement_info_needs_an_action_hash() {
    let mut entry_hash = vec![0x84, 0x21, 0x24];
    entry_hash.extend(vec![1; 36]);
    let r = settlement_info(&ActionId::new(entry_hash));
    assert_eq!(r.err(), Some(MutualCreditError::NotAnActionHash));
}

#[test]
fn settling_transaction_follows_previous_transactions() {
    let previous = Transaction {
        spender: TransactionParty { agent_pub_key: key(1), previous_transaction_hash: None, resulting_balance: (-5.0f64).to_bits() },
        recipient: TransactionParty { agent_pub_key: key(3), previous_transaction_hash: None, resulting_balance: 5.0f64.to_bits() },
        amount: 5.0f64.to_bits(),
        info: vec![],
    };
    let t = settling_transaction(
        &request(),
        &action(7),
        &Some((action(8), previous)),
        &None,
        (-15.0f64).to_bits(),
        (-10.0f64).to_bits(),
    )
    .unwrap();
    assert_eq!(t.spender.agent_pub_key.bytes, key(1).bytes);
    assert_eq!(t.recipient.agent_pub_key.bytes, key(2).bytes);
    assert_eq!(t.spender.previous_transaction_hash.unwrap().bytes, action(8).bytes);
    assert!(t.recipient.previous_transaction_hash.is_none());
    assert_eq!(f64::from_bits(t.spender.resulting_balance), -15.0);
    assert_eq!(f64::from_bits(t.recipient.resulting_balance), -10.0);
    assert_eq!(f64::from_bits(t.amount), 10.0);
    assert_eq!(t.info, settlement_info(&action(7)).unwrap());
}

#[test]
fn settling_transaction_needs_an_action_hash() {
    let r = settling_transaction(&request(), &ActionId::new(vec![9; 39]), &None, &None, 0, 0);
    assert_eq!(r.err(), Some(MutualCreditError::NotAnActionHash));
}

#[test]
fn settlement_info_needs_a_full_hash() {
    let r = settlement_info(&ActionId::new(vec![0x84, 0x29, 0x24]));
    assert_eq!(r.err(), Some(MutualCreditError::NotAnActionHash));
}

#[test]
fn settling_transaction_refuses_a_previous_transaction_of_someone_else() {
    let others = Transaction {
        spender: TransactionParty { agent_pub_key: key(3), previous_transaction_hash: None, resulting_balance: 0 },
        recipient: TransactionParty { agent_pub_key: key(4), previous_transaction_hash: None, resulting_balance: 0 },
        amount: 0,
        info: vec![],
    };
    let r = settling_transaction(&request(), &action(7), &None, &Some((action(8), others)), 0, 0);
    assert_eq!(r.err(), Some(MutualCreditError::AgentNotInTransaction));
}

#[test]
fn settled_request_reads_the_request_hash_back() {
    let info = settlement_info(&action(9)).unwrap();
    assert_eq!(settled_request(&info).unwrap().bytes, action(9).bytes);
    let mut entry_hash = vec![0xc4, 39, 0x84, 0x21, 0x24];
    entry_hash.extend(vec![1; 36]);
    assert!(settled_request(&entry_hash).is_none());
    assert!(settled_request(&vec![]).is_none());
    assert!(settled_request(&vec![0xc4, 2, 1, 2]).is_none());
}

#[test]
fn settlement_of_a_settling_transaction_names_its_request() {
    let t = settling_transaction(&request(), &action(7), &None, &None, 0, 0).unwrap();
    let s = settlement_of(&t, &action(20));
    assert_eq!(s.transaction_request_hash.unwrap().bytes, action(7).bytes);
    assert_eq!(s.transaction_hash.bytes, action(20).bytes);
}

#[test]
fn settled_request_reads_longer_binaries_and_ignores_what_follows() {
    let mut bin16 = vec![0xc5, 0, 39];
    bin16.extend(action(3).bytes);
    assert_eq!(settled_request(&bin16).unwrap().bytes, action(3).bytes);
    let mut bin32 = vec![0xc6, 0, 0, 0, 39];
    bin32.extend(action(4).bytes);
    assert_eq!(settled_request(&bin32).unwrap().bytes, action(4).bytes);
    let mut trailing = settlement_info(&action(5)).unwrap();
    trailing.extend(vec![1, 2, 3]);
    assert_eq!(settled_request(&trailing).unwrap().bytes, action(5).bytes);
    let decoded = ActionHash::try_from(SerializedBytes::from(UnsafeBytes::from(bin16))).unwrap();
    assert_eq!(decoded.get_raw_39().to_vec(), action(3).bytes);
}
