use hdk::prelude::{
    ActionBase, ActionHash, CounterSigningAgentState, CreateBase, EntryType, PreflightResponse,
    Signature,
};
use mutual_credit::countersigning::{build_preflight_request, preflight_request_fields, session_data};
use mutual_credit::error::MutualCreditError;
use mutual_credit::hashes::AgentKey;

fn typed(prefix: [u8; 3], n: u8) -> Vec<u8> {
    let mut bytes = prefix.to_vec();
    bytes.extend(vec![n; 36]);
    bytes
}

fn agent(n: u8) -> AgentKey {
    AgentKey::new(typed([0x84, 0x20, 0x24], n))
}

fn entry_hash(n: u8) -> Vec<u8> {
    typed([0x84, 0x21, 0x24], n)
}

fn action_base() -> ActionBase {
    ActionBase::Create(CreateBase::new(EntryType::AgentPubKey))
}

fn session_request(
    entry: &Vec<u8>,
    me: &AgentKey,
    counterparty: &AgentKey,
    start: i64,
    end: i64,
    base: ActionBase,
    bytes: Vec<u8>,
) -> Result<hdk::prelude::PreflightRequest, MutualCreditError> {
    build_preflight_request(preflight_request_fields(entry.clone(), me, counterparty, start, end, bytes), base)
}

const START: i64 = 1_700_000_000_000_000;
const END: i64 = START + 5_000_000;

#[test]
fn preflight_request_between_two_agents_is_built() {
    let r = session_request(&entry_hash(1), &agent(1), &agent(2), START, END, action_base(), vec![1, 2, 3]);
    let request = r.unwrap();
    assert_eq!(request.signing_agents.len(), 2);
    assert_eq!(request.signing_agents[0].0.get_raw_39().to_vec(), agent(1).bytes);
    assert_eq!(request.signing_agents[1].0.get_raw_39().to_vec(), agent(2).bytes);
    assert_eq!(request.preflight_bytes.0, vec![1, 2, 3]);
    assert!(request.optional_signing_agents.is_empty());
    assert!(request.enzymatic);
    assert_eq!(request.minimum_optional_signing_agents, 0);
    assert_eq!(request.app_entry_hash.get_raw_39().to_vec(), entry_hash(1));
    assert_eq!(request.session_times.start().as_micros(), START);
    assert_eq!(request.session_times.end().as_micros(), END);
}

#[test]
fn preflight_request_with_oneself_is_refused() {
    let r = session_request(&entry_hash(1), &agent(1), &agent(1), START, END, action_base(), vec![]);
    assert_eq!(r.err(), Some(MutualCreditError::InvalidPreflightRequest));
}

#[test]
fn preflight_request_needs_session_times_that_hold() {
    let too_short = session_request(&entry_hash(1), &agent(1), &agent(2), START, START + 999_999, action_base(), vec![]);
    assert_eq!(too_short.err(), Some(MutualCreditError::InvalidPreflightRequest));
    let just_enough = session_request(&entry_hash(1), &agent(1), &agent(2), START, START + 1_000_000, action_base(), vec![]);
    assert!(just_enough.is_ok());
    let at_epoch = session_request(&entry_hash(1), &agent(1), &agent(2), 0, END, action_base(), vec![]);
    assert_eq!(at_epoch.err(), Some(MutualCreditError::InvalidPreflightRequest));
}

#[test]
fn preflight_request_needs_hashes_of_their_type() {
    let wrong_entry = session_request(&agent(5).bytes, &agent(1), &agent(2), START, END, action_base(), vec![]);
    assert_eq!(wrong_entry.err(), Some(MutualCreditError::InvalidPreflightRequest));
    let wrong_agent = AgentKey::new(entry_hash(2));
    let r = session_request(&entry_hash(1), &agent(1), &wrong_agent, START, END, action_base(), vec![]);
    assert_eq!(r.err(), Some(MutualCreditError::InvalidPreflightRequest));
}

#[test]
fn session_data_needs_a_response() {
    assert_eq!(session_data(vec![]).err(), Some(MutualCreditError::MissingPreflightResponse));
}

#[test]
fn session_data_from_both_responses() {
    let request = session_request(&entry_hash(1), &agent(1), &agent(2), START, END, action_base(), vec![9]).unwrap();
    let chain_top = ActionHash::from_raw_39(typed([0x84, 0x29, 0x24], 3)).unwrap();
    let responses: Vec<PreflightResponse> = (0u8..2)
        .map(|i| {
            PreflightResponse::try_new(
                request.clone(),
                CounterSigningAgentState::new(i, chain_top.clone(), 4),
                Signature([i; 64]),
            )
            .unwrap()
        })
        .collect();
    let data = session_data(responses).unwrap();
    assert_eq!(data.responses.len(), 2);
    assert_eq!(data.preflight_request.preflight_bytes.0, vec![9]);
}

#[test]
fn preflight_request_fields_put_me_first() {
    let f = preflight_request_fields(entry_hash(1), &agent(1), &agent(2), START, END, vec![4]);
    assert_eq!(f.signing_agents.len(), 2);
    assert_eq!(f.signing_agents[0].bytes, agent(1).bytes);
    assert_eq!(f.signing_agents[1].bytes, agent(2).bytes);
    assert!(f.optional_signing_agents.is_empty());
    assert_eq!(f.minimum_optional_signing_agents, 0);
    assert!(f.enzymatic);
    assert_eq!((f.session_start, f.session_end), (START, END));
    assert_eq!(f.app_entry_hash, entry_hash(1));
    assert_eq!(f.preflight_bytes, vec![4]);
}
