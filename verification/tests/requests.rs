use mutual_credit::error::MutualCreditError;
use mutual_credit::hashes::AgentKey;
use mutual_credit::request::{
    build_intent, build_transaction_request, counterparty_of, CreateIntentInput, CreateTransactionRequestInput,
    IntentType, TransactionRequestType,
};

fn key(n: u8) -> AgentKey {
    AgentKey::new(vec![n; 39])
}

fn input(kind: TransactionRequestType, counterparty: u8, amount: f64) -> CreateTransactionRequestInput {
    CreateTransactionRequestInput {
        transaction_request_type: kind,
        counterparty_pub_key: key(counterparty),
        amount: amount.to_bits(),
    }
}

#[test]
fn send_request_makes_author_the_spender() {
    let r = build_transaction_request(&key(1), input(TransactionRequestType::Send, 2, 10.0)).unwrap();
    assert_eq!(r.spender_pub_key.bytes, vec![1u8; 39]);
    assert_eq!(r.recipient_pub_key.bytes, vec![2u8; 39]);
    assert_eq!(f64::from_bits(r.amount), 10.0);
}

#[test]
fn receive_request_makes_author_the_recipient() {
    let r = build_transaction_request(&key(1), input(TransactionRequestType::Receive, 2, 3.5)).unwrap();
    assert_eq!(r.spender_pub_key.bytes, vec![2u8; 39]);
    assert_eq!(r.recipient_pub_key.bytes, vec![1u8; 39]);
    assert_eq!(f64::from_bits(r.amount), 3.5);
}

#[test]
fn request_to_oneself_is_refused() {
    let r = build_transaction_request(&key(1), input(TransactionRequestType::Send, 1, 10.0));
    assert_eq!(r.err(), Some(MutualCreditError::SelfTransactionRequest));
    let r = build_transaction_request(&key(1), input(TransactionRequestType::Receive, 1, 10.0));
    assert_eq!(r.err(), Some(MutualCreditError::SelfTransactionRequest));
}

#[test]
fn counterparty_depends_on_who_asks() {
    let r = build_transaction_request(&key(1), input(TransactionRequestType::Send, 2, 10.0)).unwrap();
    assert_eq!(r.get_counterparty(&key(1)).unwrap().bytes, vec![2u8; 39]);
    assert_eq!(r.get_counterparty(&key(2)).unwrap().bytes, vec![1u8; 39]);
    assert_eq!(r.get_counterparty(&key(3)).err(), Some(MutualCreditError::NotAParticipant));
}

#[test]
fn counterparty_of_prefers_spender_match() {
    // When an agent is both spender and recipient it sees itself as the counterparty.
    let c = counterparty_of(&key(5), &key(5), &key(5)).unwrap();
    assert_eq!(c.bytes, vec![5u8; 39]);
    let c = counterparty_of(&key(5), &key(5), &key(6)).unwrap();
    assert_eq!(c.bytes, vec![6u8; 39]);
}

#[test]
fn intents_follow_requests() {
    let offer = build_intent(&key(1), CreateIntentInput {
        intent_type: IntentType::Offer,
        counterparty_pub_key: key(2),
        amount: 10.0f64.to_bits(),
    })
    .unwrap();
    assert_eq!(offer.spender_pub_key.bytes, vec![1u8; 39]);
    assert_eq!(offer.recipient_pub_key.bytes, vec![2u8; 39]);
    assert_eq!(offer.get_counterparty(&key(2)).unwrap().bytes, vec![1u8; 39]);

    let request = build_intent(&key(1), CreateIntentInput {
        intent_type: IntentType::Request,
        counterparty_pub_key: key(2),
        amount: 10.0f64.to_bits(),
    })
    .unwrap();
    assert_eq!(request.spender_pub_key.bytes, vec![2u8; 39]);
    assert_eq!(request.recipient_pub_key.bytes, vec![1u8; 39]);

    let to_self = build_intent(&key(1), CreateIntentInput {
        intent_type: IntentType::Offer,
        counterparty_pub_key: key(1),
        amount: 10.0f64.to_bits(),
    });
    assert_eq!(to_self.err(), Some(MutualCreditError::SelfTransactionRequest));
    assert_eq!(offer.get_counterparty(&key(9)).err(), Some(MutualCreditError::NotAParticipant));
}
