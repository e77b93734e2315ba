use mutual_credit::error::MutualCreditError;
use mutual_credit::hashes::{ActionId, AgentKey};
use mutual_credit::transaction::{balance_from_previous_transaction, Transaction, TransactionParty, ZERO_BALANCE};

fn key(n: u8) -> AgentKey {
    AgentKey::new(vec![n; 39])
}

fn hash(n: u8) -> ActionId {
    ActionId::new(vec![n; 39])
}

fn party(agent: u8, previous: Option<u8>, balance: f64) -> TransactionParty {
    TransactionParty {
        agent_pub_key: key(agent),
        previous_transaction_hash: previous.map(hash),
        resulting_balance: balance.to_bits(),
    }
}

fn txn(spender: TransactionParty, recipient: TransactionParty, amount: f64) -> Transaction {
    Transaction { spender, recipient, amount: amount.to_bits(), info: vec![7, 7] }
}

#[test]
fn zero_balance_is_zero() {
    assert_eq!(f64::from_bits(ZERO_BALANCE), 0.0);
}

#[test]
fn get_party_finds_spender_then_recipient() {
    let t = txn(party(1, None, -10.0), party(2, Some(9), 10.0), 10.0);
    let p = t.get_party(&key(1)).unwrap();
    assert_eq!(f64::from_bits(p.resulting_balance), -10.0);
    let p = t.get_party(&key(2)).unwrap();
    assert_eq!(f64::from_bits(p.resulting_balance), 10.0);
    assert_eq!(p.previous_transaction_hash.unwrap().bytes, vec![9u8; 39]);
    assert_eq!(t.get_party(&key(3)).err(), Some(MutualCreditError::AgentNotInTransaction));
}

#[test]
fn get_counterparty_gives_the_other_party() {
    let t = txn(party(1, None, -10.0), party(2, None, 10.0), 10.0);
    assert_eq!(t.get_counterparty(&key(1)).unwrap().agent_pub_key.bytes, vec![2u8; 39]);
    assert_eq!(t.get_counterparty(&key(2)).unwrap().agent_pub_key.bytes, vec![1u8; 39]);
    assert_eq!(t.get_counterparty(&key(3)).err(), Some(MutualCreditError::NotAParticipant));
}

#[test]
fn balance_without_previous_transaction_is_zero() {
    assert_eq!(balance_from_previous_transaction(&key(1), &None), Ok(ZERO_BALANCE));
}

#[test]
fn balance_is_read_from_previous_transaction() {
    let t = txn(party(1, None, -4.5), party(2, None, 4.5), 4.5);
    assert_eq!(f64::from_bits(balance_from_previous_transaction(&key(1), &Some(t.copy())).unwrap()), -4.5);
    assert_eq!(f64::from_bits(balance_from_previous_transaction(&key(2), &Some(t.copy())).unwrap()), 4.5);
    assert_eq!(balance_from_previous_transaction(&key(3), &Some(t)), Err(MutualCreditError::AgentNotInTransaction));
}

#[test]
fn previous_balances_reads_both_parties() {
    let previous_spender = txn(party(1, None, 20.0), party(3, None, -20.0), 20.0);
    let previous_recipient = txn(party(4, None, -5.0), party(2, None, 5.0), 5.0);
    let (s, r) = Transaction::previous_balances(
        &key(1),
        &key(2),
        &Some((hash(11), previous_spender.copy())),
        &Some((hash(12), previous_recipient.copy())),
    )
    .unwrap();
    assert_eq!(f64::from_bits(s), 20.0);
    assert_eq!(f64::from_bits(r), 5.0);

    let (s, r) = Transaction::previous_balances(&key(1), &key(2), &None, &None).unwrap();
    assert_eq!((s, r), (ZERO_BALANCE, ZERO_BALANCE));

    // A previous transaction that does not name the agent cannot be built on.
    let err = Transaction::previous_balances(&key(1), &key(2), &Some((hash(12), previous_recipient)), &None);
    assert_eq!(err, Err(MutualCreditError::AgentNotInTransaction));
}

#[test]
fn next_transaction_points_at_previous_ones() {
    let previous_spender = txn(party(1, None, 20.0), party(3, None, -20.0), 20.0);
    let t = Transaction::from_previous_transactions(
        key(1),
        key(2),
        &Some((hash(11), previous_spender)),
        &None,
        5.0f64.to_bits(),
        vec![1, 2, 3],
        15.0f64.to_bits(),
        (-5.0f64).to_bits(),
    )
    .unwrap();
    assert_eq!(t.spender.agent_pub_key.bytes, vec![1u8; 39]);
    assert_eq!(t.spender.previous_transaction_hash.as_ref().unwrap().bytes, vec![11u8; 39]);
    assert_eq!(f64::from_bits(t.spender.resulting_balance), 15.0);
    assert_eq!(t.recipient.agent_pub_key.bytes, vec![2u8; 39]);
    assert!(t.recipient.previous_transaction_hash.is_none());
    assert_eq!(f64::from_bits(t.recipient.resulting_balance), -5.0);
    assert_eq!(f64::from_bits(t.amount), 5.0);
    assert_eq!(t.info, vec![1, 2, 3]);
}

#[test]
fn balances_chain_from_one_transaction_to_the_next() {
    let first = Transaction::from_previous_transactions(
        key(1), key(2), &None, &None, 10.0f64.to_bits(), vec![], (-10.0f64).to_bits(), 10.0f64.to_bits()).unwrap();
    let (s, r) = Transaction::previous_balances(
        &key(2), &key(1), &Some((hash(1), first.copy())), &Some((hash(1), first.copy()))).unwrap();
    assert_eq!(f64::from_bits(s), 10.0);
    assert_eq!(f64::from_bits(r), -10.0);
}

#[test]
fn next_transaction_refuses_a_previous_transaction_of_someone_else() {
    let others = txn(party(3, None, 20.0), party(4, None, -20.0), 20.0);
    let r = Transaction::from_previous_transactions(
        key(1), key(2), &Some((hash(11), others)), &None, 5.0f64.to_bits(), vec![], 0, 0);
    assert_eq!(r.err(), Some(MutualCreditError::AgentNotInTransaction));
    let others = txn(party(3, None, 20.0), party(4, None, -20.0), 20.0);
    let r = Transaction::from_previous_transactions(
        key(1), key(2), &None, &Some((hash(12), others)), 5.0f64.to_bits(), vec![], 0, 0);
    assert_eq!(r.err(), Some(MutualCreditError::AgentNotInTransaction));
}
