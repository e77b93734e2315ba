use mutual_credit::activity::ActivitySummary;
use mutual_credit::error::MutualCreditError;
use mutual_credit::hashes::{ActionId, AgentKey};
use mutual_credit::preflight::{get_author, PreflightResponseSummary};
use mutual_credit::request::TransactionRequest;
use mutual_credit::request_session::{
    RequestSession, RequestSessionAction, RequestSessionEvent, RequestSessionStep, SettlementInputs,
};
use mutual_credit::responder::{ResponderAction, ResponderEvent, ResponderSession, ResponderStep};
use mutual_credit::transaction::{Transaction, TransactionParty};
use mutual_credit::transaction_session::{
    AttemptCreateTransactionInput, TransactionSession, TransactionSessionAction, TransactionSessionEvent,
    TransactionSessionStep,
};

fn key(n: u8) -> AgentKey {
    AgentKey::new(vec![n; 39])
}

fn hash(n: u8) -> ActionId {
    ActionId::new(vec![n; 39])
}

fn action(n: u8) -> ActionId {
    let mut bytes = vec![0x84, 0x29, 0x24];
    bytes.extend(vec![n; 36]);
    ActionId::new(bytes)
}

// Alice (1) sends 10 to Bob (2); Bob accepts. Bob's previous transaction is 40.
fn request() -> TransactionRequest {
    TransactionRequest { spender_pub_key: key(1), recipient_pub_key: key(2), amount: 10.0f64.to_bits() }
}

fn transaction() -> Transaction {
    Transaction {
        spender: TransactionParty { agent_pub_key: key(1), previous_transaction_hash: None, resulting_balance: (-10.0f64).to_bits() },
        recipient: TransactionParty { agent_pub_key: key(2), previous_transaction_hash: Some(hash(40)), resulting_balance: 10.0f64.to_bits() },
        amount: 10.0f64.to_bits(),
        info: vec![1, 2, 3],
    }
}

fn inputs() -> SettlementInputs {
    SettlementInputs {
        previous_spender_transaction: None,
        previous_recipient_transaction: Some((hash(40), transaction())),
        resulting_spender_balance: (-10.0f64).to_bits(),
        resulting_recipient_balance: 10.0f64.to_bits(),
    }
}

fn alice_response(chain_top: u8, agent_index: u8) -> PreflightResponseSummary {
    PreflightResponseSummary {
        chain_top: hash(chain_top),
        agent_index,
        signing_agents: vec![key(2), key(1)],
        transaction: Some(transaction()),
    }
}

fn alice_activity() -> ActivitySummary {
    ActivitySummary { valid_activity: vec![], highest_observed: Some(vec![hash(50)]) }
}

fn started() -> RequestSession {
    let (s, a) = RequestSession::start(key(2), Some(request()), action(30), hash(50)).unwrap();
    assert_eq!(a, RequestSessionAction::CallPreTransactionCheck);
    s
}

fn at_counterparty_response() -> RequestSession {
    let (s, a) = started().step(RequestSessionEvent::PreTransactionCheckAnswered(true));
    assert_eq!(a, RequestSessionAction::ReadTransactionInputs);
    let (s, a) = s.step(RequestSessionEvent::TransactionInputsRead(Ok(inputs())));
    assert_eq!(a, RequestSessionAction::BuildPreflight);
    let (s, a) = s.step(RequestSessionEvent::PreflightBuilt);
    assert_eq!(a, RequestSessionAction::LockOwnChain);
    let (s, a) = s.step(RequestSessionEvent::OwnChainLockAnswered(true));
    assert_eq!(a, RequestSessionAction::CallRequestCreateTransaction);
    s
}

#[test]
fn request_session_settles_the_request() {
    let s = started();
    assert_eq!(s.counterparty().bytes, vec![1u8; 39]);
    let s = at_counterparty_response();
    let (s, a) = s.step(RequestSessionEvent::RequestCreateTransactionAnswered(Some(alice_response(50, 1))));
    assert_eq!(a, RequestSessionAction::FetchAuthorActivity);
    assert_eq!(s.author().unwrap().bytes, vec![1u8; 39]);
    let (s, a) = s.step(RequestSessionEvent::AuthorActivity(alice_activity()));
    assert_eq!(a, RequestSessionAction::CreateTransaction);
    let (s, a) = s.step(RequestSessionEvent::TransactionCreated(hash(60)));
    assert_eq!(a, RequestSessionAction::Finish);
    assert_eq!(s.current_step(), RequestSessionStep::Done);
    let (h, t) = s.outcome().unwrap().unwrap();
    assert_eq!(h.bytes, vec![60u8; 39]);
    let mut info = vec![0xc4, 39];
    info.extend(action(30).bytes);
    assert_eq!(t.info, info);
    assert_eq!(t.spender.agent_pub_key.bytes, key(1).bytes);
    assert_eq!(t.recipient.agent_pub_key.bytes, key(2).bytes);
    assert!(t.spender.previous_transaction_hash.is_none());
    assert_eq!(t.recipient.previous_transaction_hash.unwrap().bytes, hash(40).bytes);
    assert_eq!(f64::from_bits(t.amount), 10.0);
    assert_eq!(f64::from_bits(t.recipient.resulting_balance), 10.0);
    let (s, a) = s.step(RequestSessionEvent::HostCallFailed);
    assert_eq!(a, RequestSessionAction::Nothing);
    assert_eq!(s.current_step(), RequestSessionStep::Done);
}

#[test]
fn request_session_refuses_bad_starts() {
    assert_eq!(RequestSession::start(key(2), None, hash(30), hash(50)).err(), Some(MutualCreditError::MalformedTransactionRequest));
    assert_eq!(RequestSession::start(key(3), Some(request()), hash(30), hash(50)).err(), Some(MutualCreditError::NotAParticipant));
}

fn failure_of(s: RequestSession, e: RequestSessionEvent) -> MutualCreditError {
    let (s, a) = s.step(e);
    assert_eq!(a, RequestSessionAction::Finish);
    s.outcome().unwrap().err().unwrap()
}

#[test]
fn request_session_failures() {
    assert_eq!(failure_of(started(), RequestSessionEvent::PreTransactionCheckAnswered(false)), MutualCreditError::PreTransactionCheckFailed);
    assert_eq!(failure_of(started(), RequestSessionEvent::HostCallFailed), MutualCreditError::HostCallFailed);
    assert_eq!(failure_of(started(), RequestSessionEvent::PreflightBuilt), MutualCreditError::UnexpectedEvent);
    let (s, _) = started().step(RequestSessionEvent::PreTransactionCheckAnswered(true));
    assert_eq!(failure_of(s, RequestSessionEvent::TransactionInputsRead(Err(MutualCreditError::AgentNotInTransaction))), MutualCreditError::AgentNotInTransaction);

    let (s, _) = RequestSession::start(key(2), Some(request()), hash(30), hash(50)).unwrap();
    let (s, _) = s.step(RequestSessionEvent::PreTransactionCheckAnswered(true));
    assert_eq!(failure_of(s, RequestSessionEvent::TransactionInputsRead(Ok(inputs()))), MutualCreditError::NotAnActionHash);

    let (s, _) = started().step(RequestSessionEvent::PreTransactionCheckAnswered(true));
    let mut foreign = inputs();
    foreign.previous_spender_transaction = Some((hash(41), transaction()));
    foreign.previous_spender_transaction.as_mut().unwrap().1.spender.agent_pub_key = key(9);
    assert_eq!(failure_of(s, RequestSessionEvent::TransactionInputsRead(Ok(foreign))), MutualCreditError::AgentNotInTransaction);

    let (s, _) = started().step(RequestSessionEvent::PreTransactionCheckAnswered(true));
    let (s, _) = s.step(RequestSessionEvent::TransactionInputsRead(Ok(inputs())));
    let (s, _) = s.step(RequestSessionEvent::PreflightBuilt);
    assert_eq!(failure_of(s, RequestSessionEvent::OwnChainLockAnswered(false)), MutualCreditError::OwnChainLockFailed);

    assert_eq!(failure_of(at_counterparty_response(), RequestSessionEvent::RequestCreateTransactionAnswered(None)),
        MutualCreditError::RequestCreateTransactionFailed);
    assert_eq!(failure_of(at_counterparty_response(), RequestSessionEvent::RequestCreateTransactionAnswered(Some(alice_response(51, 1)))),
        MutualCreditError::CounterpartyChainMoved);
    assert_eq!(failure_of(at_counterparty_response(), RequestSessionEvent::RequestCreateTransactionAnswered(Some(alice_response(50, 2)))),
        MutualCreditError::MalformedPreflightResponse);
    let mut undecodable = alice_response(50, 1);
    undecodable.transaction = None;
    assert_eq!(failure_of(at_counterparty_response(), RequestSessionEvent::RequestCreateTransactionAnswered(Some(undecodable))),
        MutualCreditError::TransactionDecodeFailed);
    let mut stranger = alice_response(50, 1);
    stranger.signing_agents = vec![key(2), key(7)];
    assert_eq!(failure_of(at_counterparty_response(), RequestSessionEvent::RequestCreateTransactionAnswered(Some(stranger))),
        MutualCreditError::AgentNotInTransaction);

    let (s, _) = at_counterparty_response().step(RequestSessionEvent::RequestCreateTransactionAnswered(Some(alice_response(50, 1))));
    let moved_on = ActivitySummary { valid_activity: vec![hash(45)], highest_observed: Some(vec![hash(50)]) };
    assert_eq!(failure_of(s, RequestSessionEvent::AuthorActivity(moved_on)), MutualCreditError::TransactionNotTheLatest);
}

#[test]
fn preflight_response_check() {
    assert_eq!(get_author(&vec![key(1), key(2)], 1).unwrap().bytes, vec![2u8; 39]);
    assert_eq!(get_author(&vec![key(1), key(2)], 2).err(), Some(MutualCreditError::MalformedPreflightResponse));
    let r = alice_response(50, 1);
    assert_eq!(r.check_preflight_response(&alice_activity()), Ok(()));
    let other_top = ActivitySummary { valid_activity: vec![], highest_observed: Some(vec![hash(52)]) };
    assert_eq!(r.check_preflight_response(&other_top), Err(MutualCreditError::BadHighestObserved));
    // Bob's party builds on transaction 40.
    let bob = alice_response(50, 0);
    let bob_activity = ActivitySummary { valid_activity: vec![hash(39), hash(40)], highest_observed: Some(vec![hash(50)]) };
    assert_eq!(bob.check_preflight_response(&bob_activity), Ok(()));
}

#[test]
fn transaction_session_writes_the_transaction() {
    let input = AttemptCreateTransactionInput { transaction: transaction(), counterparty_chain_top: hash(50) };
    let (s, a) = TransactionSession::start(key(2), input).unwrap();
    assert_eq!(a, TransactionSessionAction::BuildPreflight);
    assert_eq!(s.counterparty().bytes, vec![1u8; 39]);
    let (s, a) = s.step(TransactionSessionEvent::PreflightBuilt);
    assert_eq!(a, TransactionSessionAction::CallTransactionPreflight);
    let (s, a) = s.step(TransactionSessionEvent::TransactionPreflightAnswered(true));
    assert_eq!(a, TransactionSessionAction::LockOwnChain);
    let (s, a) = s.step(TransactionSessionEvent::OwnChainLockAnswered(true));
    assert_eq!(a, TransactionSessionAction::CallRequestCreateTransaction);
    let (s, a) = s.step(TransactionSessionEvent::RequestCreateTransactionAnswered(true));
    assert_eq!(a, TransactionSessionAction::CreateTransaction);
    let (s, a) = s.step(TransactionSessionEvent::TransactionCreated(hash(61)));
    assert_eq!(a, TransactionSessionAction::Finish);
    assert_eq!(s.current_step(), TransactionSessionStep::Done);
    let (h, t) = s.outcome().unwrap().unwrap();
    assert_eq!(h.bytes, vec![61u8; 39]);
    assert_eq!(f64::from_bits(t.amount), 10.0);
}

#[test]
fn transaction_session_failures() {
    let input = AttemptCreateTransactionInput { transaction: transaction(), counterparty_chain_top: hash(50) };
    assert_eq!(TransactionSession::start(key(3), input).err(), Some(MutualCreditError::NotAParticipant));

    let start = || {
        let input = AttemptCreateTransactionInput { transaction: transaction(), counterparty_chain_top: hash(50) };
        let (s, _) = TransactionSession::start(key(1), input).unwrap();
        let (s, _) = s.step(TransactionSessionEvent::PreflightBuilt);
        s
    };
    let (s, a) = start().step(TransactionSessionEvent::TransactionPreflightAnswered(false));
    assert_eq!(a, TransactionSessionAction::Finish);
    assert_eq!(s.outcome().unwrap().err(), Some(MutualCreditError::TransactionPreflightFailed));
    let (s, _) = start().step(TransactionSessionEvent::TransactionPreflightAnswered(true));
    let (s, _) = s.step(TransactionSessionEvent::OwnChainLockAnswered(false));
    assert_eq!(s.outcome().unwrap().err(), Some(MutualCreditError::OwnChainLockFailed));
    let (s, _) = start().step(TransactionSessionEvent::TransactionPreflightAnswered(true));
    let (s, _) = s.step(TransactionSessionEvent::OwnChainLockAnswered(true));
    let (s, _) = s.step(TransactionSessionEvent::RequestCreateTransactionAnswered(false));
    assert_eq!(s.outcome().unwrap().err(), Some(MutualCreditError::RequestCreateTransactionFailed));
    let (s, _) = start().step(TransactionSessionEvent::HostCallFailed);
    assert_eq!(s.outcome().unwrap().err(), Some(MutualCreditError::HostCallFailed));
    let (s, _) = start().step(TransactionSessionEvent::TransactionCreated(hash(1)));
    assert_eq!(s.outcome().unwrap().err(), Some(MutualCreditError::UnexpectedEvent));
    let (s, a) = s.step(TransactionSessionEvent::PreflightBuilt);
    assert_eq!(a, TransactionSessionAction::Nothing);
    assert_eq!(s.current_step(), TransactionSessionStep::Failed(MutualCreditError::UnexpectedEvent));
}

fn bob_response(chain_top: u8) -> PreflightResponseSummary {
    PreflightResponseSummary {
        chain_top: hash(chain_top),
        agent_index: 0,
        signing_agents: vec![key(2), key(1)],
        transaction: Some(transaction()),
    }
}

fn bob_activity(latest: u8, top: u8) -> ActivitySummary {
    ActivitySummary { valid_activity: vec![hash(latest)], highest_observed: Some(vec![hash(top)]) }
}

fn checked_responder() -> ResponderSession {
    let (s, a) = ResponderSession::start(bob_response(55)).unwrap();
    assert_eq!(a, ResponderAction::FetchInitiatorActivity);
    assert_eq!(s.initiator().bytes, key(2).bytes);
    let (s, a) = s.step(ResponderEvent::InitiatorActivity(bob_activity(40, 55)));
    assert_eq!(a, ResponderAction::LockOwnChain);
    s
}

#[test]
fn responder_writes_after_checking_and_locking() {
    let (s, a) = checked_responder().step(ResponderEvent::OwnChainLockAnswered(true));
    assert_eq!(a, ResponderAction::CreateTransaction);
    let (s, a) = s.step(ResponderEvent::TransactionCreated(hash(70)));
    assert_eq!(a, ResponderAction::Finish);
    assert_eq!(s.outcome().unwrap().unwrap().bytes, vec![70u8; 39]);
}

#[test]
fn responder_failures() {
    let mut undecodable = bob_response(55);
    undecodable.transaction = None;
    assert_eq!(ResponderSession::start(undecodable).err(), Some(MutualCreditError::TransactionDecodeFailed));
    let mut out_of_range = bob_response(55);
    out_of_range.agent_index = 2;
    assert_eq!(ResponderSession::start(out_of_range).err(), Some(MutualCreditError::MalformedPreflightResponse));

    let (s, _) = ResponderSession::start(bob_response(55)).unwrap();
    let (s, a) = s.step(ResponderEvent::InitiatorActivity(bob_activity(41, 55)));
    assert_eq!(a, ResponderAction::Finish);
    assert_eq!(s.current_step(), ResponderStep::Failed(MutualCreditError::TransactionNotTheLatest));
    let (s, _) = ResponderSession::start(bob_response(55)).unwrap();
    let (s, _) = s.step(ResponderEvent::InitiatorActivity(bob_activity(40, 56)));
    assert_eq!(s.current_step(), ResponderStep::Failed(MutualCreditError::BadHighestObserved));
    let (s, _) = ResponderSession::start(bob_response(55)).unwrap();
    let (s, _) = s.step(ResponderEvent::OwnChainLockAnswered(true));
    assert_eq!(s.current_step(), ResponderStep::Failed(MutualCreditError::UnexpectedEvent));

    let (s, a) = checked_responder().step(ResponderEvent::OwnChainLockAnswered(false));
    assert_eq!(a, ResponderAction::Finish);
    assert_eq!(s.current_step(), ResponderStep::Failed(MutualCreditError::OwnChainLockFailed));
    let (s, _) = checked_responder().step(ResponderEvent::TransactionCreated(hash(1)));
    assert_eq!(s.outcome().unwrap().err(), Some(MutualCreditError::UnexpectedEvent));
}
