//! The preflight request that opens a countersigning session, and the
//! session data written with the countersigned transaction, both built by
//! Holochain's integrity types.
use vstd::prelude::*;
use hdk::prelude::{
    ActionBase, AgentPubKey, CounterSigningAgents, CounterSigningSessionData,
    CounterSigningSessionTimes, EntryHash, PreflightBytes, PreflightRequest, PreflightResponse,
    Timestamp,
};
use crate::hashes::AgentKey;
use crate::error::MutualCreditError;
use crate::preflight::keys_view;

verus! {

#[verifier::external_type_specification]
#[verifier::external_body]
pub struct ExPreflightRequest(hdk::prelude::PreflightRequest);

#[verifier::external_type_specification]
#[verifier::external_body]
pub struct ExPreflightResponse(hdk::prelude::PreflightResponse);

#[verifier::external_type_specification]
#[verifier::external_body]
pub struct ExCounterSigningSessionData(hdk::prelude::CounterSigningSessionData);

#[verifier::external_type_specification]
#[verifier::external_body]
pub struct ExActionBase(hdk::prelude::ActionBase);

/// The three bytes that begin the hash of an agent's public key.
pub open spec fn agent_prefix() -> Seq<u8> {
    seq![0x84u8, 0x20u8, 0x24u8]
}

/// The three bytes that begin the hash of an entry.
pub open spec fn entry_prefix() -> Seq<u8> {
    seq![0x84u8, 0x21u8, 0x24u8]
}

/// Whether the 39-byte hash `h` is of the type that `prefix` marks.
pub open spec fn hash_of_type(h: Seq<u8>, prefix: Seq<u8>) -> bool {
    h.subrange(0, 3) == prefix
}

/// Whether a session may run from `start` to `end` (microseconds since the
/// epoch): it starts after the epoch, and its action, one second after the
/// start, falls within it.
pub open spec fn session_times_valid(start: i64, end: i64) -> bool {
    0 < start && start + 1_000_000 <= end
}

/// The plain content of a preflight request: the hash of the entry the
/// session writes, the signing agents in order, the optional signers and how
/// many of them must sign, whether the first signing agent acts as an
/// enzyme, the session's start and end (microseconds since the epoch) and
/// the preflight bytes.
pub struct PreflightRequestFields {
    pub app_entry_hash: Vec<u8>,
    pub signing_agents: Vec<AgentKey>,
    pub optional_signing_agents: Vec<AgentKey>,
    pub minimum_optional_signing_agents: u8,
    pub enzymatic: bool,
    pub session_start: i64,
    pub session_end: i64,
    pub preflight_bytes: Vec<u8>,
}

pub struct PreflightRequestFieldsView {
    pub app_entry_hash: Seq<u8>,
    pub signing_agents: Seq<Seq<u8>>,
    pub optional_signing_agents: Seq<Seq<u8>>,
    pub minimum_optional_signing_agents: u8,
    pub enzymatic: bool,
    pub session_start: i64,
    pub session_end: i64,
    pub preflight_bytes: Seq<u8>,
}

impl View for PreflightRequestFields {
    type V = PreflightRequestFieldsView;

    open spec fn view(&self) -> PreflightRequestFieldsView {
        PreflightRequestFieldsView {
            app_entry_hash: self.app_entry_hash@,
            signing_agents: keys_view(self.signing_agents@),
            optional_signing_agents: keys_view(self.optional_signing_agents@),
            minimum_optional_signing_agents: self.minimum_optional_signing_agents,
            enzymatic: self.enzymatic,
            session_start: self.session_start,
            session_end: self.session_end,
            preflight_bytes: self.preflight_bytes@,
        }
    }
}

/// The content of the preflight request of a session between `me` and
/// `counterparty`, in that order, that writes the entry whose hash is
/// `app_entry_hash` with the given bytes: two required signers, the first
/// of them acting as the enzyme, and no optional signers.
pub open spec fn session_request_fields(
    app_entry_hash: Seq<u8>,
    me: Seq<u8>,
    counterparty: Seq<u8>,
    session_start: i64,
    session_end: i64,
    preflight_bytes: Seq<u8>,
) -> PreflightRequestFieldsView {
    PreflightRequestFieldsView {
        app_entry_hash,
        signing_agents: seq![me, counterparty],
        optional_signing_agents: Seq::empty(),
        minimum_optional_signing_agents: 0,
        enzymatic: true,
        session_start,
        session_end,
        preflight_bytes,
    }
}

/// Whether the hashes of a request's content have the 39 bytes of a hash.
pub open spec fn fields_have_full_hashes(f: PreflightRequestFieldsView) -> bool {
    &&& f.app_entry_hash.len() == 39
    &&& forall|i: int| 0 <= i < f.signing_agents.len() ==> (#[trigger] f.signing_agents[i]).len() == 39
    &&& forall|i: int| 0 <= i < f.optional_signing_agents.len() ==> (#[trigger] f.optional_signing_agents[i]).len() == 39
}

/// Whether checking the optional signers stays within `u8` arithmetic.
pub open spec fn fields_minimum_in_range(f: PreflightRequestFieldsView) -> bool {
    2 * f.minimum_optional_signing_agents <= 255 || f.optional_signing_agents.len() < f.minimum_optional_signing_agents
}

/// Whether Holochain accepts a preflight request with content `f`: each
/// hash has the prefix of its type, an enzyme is used exactly when there
/// are optional signers and is then the first of both lists, the session
/// times hold, the signing agents are two to eight distinct agents, and the
/// optional signers' minimum is at most their number and at least half of
/// it.
pub open spec fn preflight_request_valid(f: PreflightRequestFieldsView) -> bool {
    let agents = f.signing_agents;
    let optional = f.optional_signing_agents;
    let minimum = f.minimum_optional_signing_agents;
    &&& hash_of_type(f.app_entry_hash, entry_prefix())
    &&& forall|i: int| 0 <= i < agents.len() ==> hash_of_type(#[trigger] agents[i], agent_prefix())
    &&& forall|i: int| 0 <= i < optional.len() ==> hash_of_type(#[trigger] optional[i], agent_prefix())
    &&& (!f.enzymatic ==> optional.len() == 0)
    &&& (f.enzymatic && optional.len() > 0 ==> agents.len() > 0 && agents[0] == optional[0])
    &&& session_times_valid(f.session_start, f.session_end)
    &&& agents.no_duplicates()
    &&& 2 <= agents.len() <= 8
    &&& minimum <= optional.len()
    &&& (optional.len() > 0 ==> optional.len() <= 2 * minimum)
}

/// The content of a preflight request: its entry hash and agent keys by
/// their 39 bytes, its optional signers' minimum, its enzyme flag, its
/// session times in microseconds and its preflight bytes.
pub uninterp spec fn preflight_request_content(request: PreflightRequest) -> PreflightRequestFieldsView;

/// The action base of a preflight request.
pub uninterp spec fn preflight_request_action_base(request: PreflightRequest) -> ActionBase;

/// `PreflightRequest::try_new` of Holochain's integrity types, on the
/// content `fields` converted one for one: the entry hash and the agent keys
/// from their 39 bytes (each agent with no roles), the session times from
/// microseconds, the bytes as preflight bytes. The request is built when
/// each hash has the prefix of its type and the request passes the
/// integrity checks of `try_new` (the enzyme, the session times, the signing
/// agents and the optional signers), and `None` comes back otherwise; the
/// request built holds that content, in that order, and `action_base`.
#[verifier::external_body]
fn try_new_preflight_request(fields: PreflightRequestFields, action_base: ActionBase) -> (r: Option<PreflightRequest>)
    requires
        fields_have_full_hashes(fields@),
        fields_minimum_in_range(fields@),
    ensures
        r is Some <==> preflight_request_valid(fields@),
        r matches Some(p) ==> preflight_request_content(p) == fields@,
        r matches Some(p) ==> preflight_request_action_base(p) == action_base,
{
    let agents = |keys: &Vec<AgentKey>| keys.iter()
        .map(|k| AgentPubKey::from_raw_39(k.bytes.clone()).ok().map(|a| (a, vec![])))
        .collect::<Option<CounterSigningAgents>>();
    let start = Timestamp::from_micros(fields.session_start);
    let times = CounterSigningSessionTimes { start, end: Timestamp::from_micros(fields.session_end) };
    let hash = EntryHash::from_raw_39(fields.app_entry_hash).ok()?;
    PreflightRequest::try_new(
        hash, agents(&fields.signing_agents)?, agents(&fields.optional_signing_agents)?,
        fields.minimum_optional_signing_agents, fields.enzymatic, times, action_base,
        PreflightBytes(fields.preflight_bytes),
    ).ok()
}

/// The session data Holochain builds from the required and optional
/// responses of a session: the first response's request, and each
/// response's agent state and signature in the order given.
pub uninterp spec fn session_data_of(
    responses: Seq<PreflightResponse>,
    optional_responses: Seq<PreflightResponse>,
) -> CounterSigningSessionData;

/// `CounterSigningSessionData::try_from_responses` of Holochain's integrity
/// types: the session data is built from the first response's request and
/// all the responses, in order, whenever there is a first response, and
/// `None` comes back when `responses` is empty.
#[verifier::external_body]
fn try_session_data_from_responses(
    responses: Vec<PreflightResponse>,
    optional_responses: Vec<PreflightResponse>,
) -> (r: Option<CounterSigningSessionData>)
    ensures
        r is Some <==> responses@.len() > 0,
        r matches Some(d) ==> d == session_data_of(responses@, optional_responses@),
{
    CounterSigningSessionData::try_from_responses(responses, optional_responses).ok()
}

/// The content of the preflight request of a session between `me` and
/// `counterparty`, in that order, that writes the entry whose hash is
/// `app_entry_hash` with the given bytes.
pub fn preflight_request_fields(
    app_entry_hash: Vec<u8>,
    me: &AgentKey,
    counterparty: &AgentKey,
    session_start: i64,
    session_end: i64,
    preflight_bytes: Vec<u8>,
) -> (r: PreflightRequestFields)
    ensures
        r@ == session_request_fields(app_entry_hash@, me@, counterparty@, session_start, session_end, preflight_bytes@),
{
    let mut signing_agents: Vec<AgentKey> = Vec::new();
    signing_agents.push(me.copy());
    signing_agents.push(counterparty.copy());
    let optional_signing_agents: Vec<AgentKey> = Vec::new();
    let r = PreflightRequestFields {
        app_entry_hash,
        signing_agents,
        optional_signing_agents,
        minimum_optional_signing_agents: 0,
        enzymatic: true,
        session_start,
        session_end,
        preflight_bytes,
    };
    assert(r@.signing_agents =~= seq![me@, counterparty@]);
    assert(r@.optional_signing_agents =~= Seq::<Seq<u8>>::empty());
    r
}

/// The preflight request with content `fields` and action base
/// `action_base`, built by Holochain; refused when Holochain does not accept
/// it.
pub fn build_preflight_request(
    fields: PreflightRequestFields,
    action_base: ActionBase,
) -> (r: Result<PreflightRequest, MutualCreditError>)
    requires
        fields_have_full_hashes(fields@),
        fields_minimum_in_range(fields@),
    ensures
        r is Ok <==> preflight_request_valid(fields@),
        r matches Ok(p) ==> preflight_request_content(p) == fields@,
        r matches Ok(p) ==> preflight_request_action_base(p) == action_base,
        r is Err ==> r == Err::<PreflightRequest, MutualCreditError>(MutualCreditError::InvalidPreflightRequest),
{
    match try_new_preflight_request(fields, action_base) {
        Some(request) => Ok(request),
        None => Err(MutualCreditError::InvalidPreflightRequest),
    }
}

/// The request of a session between two agents is accepted exactly when
/// the hashes have their types, the agents differ and the session times
/// hold.
pub proof fn lemma_session_request_valid(
    app_entry_hash: Seq<u8>,
    me: Seq<u8>,
    counterparty: Seq<u8>,
    session_start: i64,
    session_end: i64,
    preflight_bytes: Seq<u8>,
)
    ensures
        ({
            let f = session_request_fields(app_entry_hash, me, counterparty, session_start, session_end, preflight_bytes);
            &&& (app_entry_hash.len() == 39 && me.len() == 39 && counterparty.len() == 39) ==> fields_have_full_hashes(f)
            &&& fields_minimum_in_range(f)
            &&& preflight_request_valid(f) <==> {
                &&& app_entry_hash.subrange(0, 3) == seq![0x84u8, 0x21u8, 0x24u8]
                &&& me.subrange(0, 3) == seq![0x84u8, 0x20u8, 0x24u8]
                &&& counterparty.subrange(0, 3) == seq![0x84u8, 0x20u8, 0x24u8]
                &&& me != counterparty
                &&& 0 < session_start
                &&& session_start + 1_000_000 <= session_end
            }
            &&& f.signing_agents == seq![me, counterparty]
            &&& f.optional_signing_agents.len() == 0
            &&& f.enzymatic
            &&& f.app_entry_hash == app_entry_hash
            &&& f.preflight_bytes == preflight_bytes
            &&& f.session_start == session_start && f.session_end == session_end
        }),
{
    let f = session_request_fields(app_entry_hash, me, counterparty, session_start, session_end, preflight_bytes);
    let a = f.signing_agents;
    assert(a[0] == me && a[1] == counterparty);
    if me != counterparty {
        assert forall|i: int, j: int| 0 <= i < a.len() && 0 <= j < a.len() && i != j implies a[i] != a[j] by {}
    }
    if hash_of_type(me, agent_prefix()) && hash_of_type(counterparty, agent_prefix()) {
        assert forall|i: int| 0 <= i < a.len() implies hash_of_type(#[trigger] a[i], agent_prefix()) by {}
    }
}

/// The session data written with a countersigned entry, from the required
/// responses of its session in the order given, with no optional ones;
/// refused when there is none.
pub fn session_data(responses: Vec<PreflightResponse>) -> (r: Result<CounterSigningSessionData, MutualCreditError>)
    ensures
        r is Ok <==> responses@.len() > 0,
        r matches Ok(d) ==> d == session_data_of(responses@, Seq::<PreflightResponse>::empty()),
        r is Err ==> r == Err::<CounterSigningSessionData, MutualCreditError>(MutualCreditError::MissingPreflightResponse),
{
    let optional: Vec<PreflightResponse> = Vec::new();
    assert(optional@ =~= Seq::<PreflightResponse>::empty());
    match try_session_data_from_responses(responses, optional) {
        Some(data) => Ok(data),
        None => Err(MutualCreditError::MissingPreflightResponse),
    }
}

} // verus!
