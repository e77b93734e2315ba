//! What an agent checks of the preflight response its counterparty sends
//! back during a countersigning session.
use vstd::prelude::*;
use crate::hashes::{AgentKey, ActionId, opt_view};
use crate::error::MutualCreditError;
use crate::transaction::{Transaction, TransactionView, party_of};
use crate::activity::{ActivitySummary, ActivityView, latest_check_spec};

verus! {

pub open spec fn keys_view(v: Seq<AgentKey>) -> Seq<Seq<u8>> {
    v.map_values(|k: AgentKey| k@)
}

/// The parts of a preflight response that the checks read.
pub struct PreflightResponseSummary {
    /// The top of the responding agent's chain, frozen for the session.
    pub chain_top: ActionId,
    /// The position of the responding agent among the signing agents.
    pub agent_index: u8,
    /// The signing agents of the preflight request answered.
    pub signing_agents: Vec<AgentKey>,
    /// The transaction the preflight bytes decode to, if they do.
    pub transaction: Option<Transaction>,
}

pub struct PreflightResponseView {
    pub chain_top: Seq<u8>,
    pub agent_index: u8,
    pub signing_agents: Seq<Seq<u8>>,
    pub transaction: Option<TransactionView>,
}

impl View for PreflightResponseSummary {
    type V = PreflightResponseView;

    open spec fn view(&self) -> PreflightResponseView {
        PreflightResponseView {
            chain_top: self.chain_top@,
            agent_index: self.agent_index,
            signing_agents: keys_view(self.signing_agents@),
            transaction: match self.transaction {
                Some(t) => Some(t@),
                None => None,
            },
        }
    }
}

/// The agent that signed a response: the signing agent at its index.
pub open spec fn author_spec(agents: Seq<Seq<u8>>, agent_index: u8) -> Option<Seq<u8>> {
    if (agent_index as int) < agents.len() {
        Some(agents[agent_index as int])
    } else {
        None
    }
}

/// What a response commits its author to: the author, the previous
/// transaction the author's party of the transaction builds on, and the
/// author's chain top.
pub struct ResponseCommitment {
    pub author: Seq<u8>,
    pub previous: Option<Seq<u8>>,
    pub chain_top: Seq<u8>,
}

/// The commitment of a response, read in the order the checks read it: the
/// transaction, then the author, then the author's party.
pub open spec fn commitment_spec(r: PreflightResponseView) -> Result<ResponseCommitment, MutualCreditError> {
    match r.transaction {
        None => Err(MutualCreditError::TransactionDecodeFailed),
        Some(t) => match author_spec(r.signing_agents, r.agent_index) {
            None => Err(MutualCreditError::MalformedPreflightResponse),
            Some(author) => match party_of(t, author) {
                None => Err(MutualCreditError::AgentNotInTransaction),
                Some(p) => Ok(ResponseCommitment { author, previous: p.previous, chain_top: r.chain_top }),
            },
        },
    }
}

/// A response holds when its author's activity shows the chain top it
/// froze and the previous transaction it builds on as its latest.
pub open spec fn check_response_spec(r: PreflightResponseView, author_activity: ActivityView) -> Result<(), MutualCreditError> {
    match commitment_spec(r) {
        Err(e) => Err(e),
        Ok(c) => latest_check_spec(author_activity, c.previous, c.chain_top),
    }
}

/// The signing agent at `agent_index`.
pub fn get_author(signing_agents: &Vec<AgentKey>, agent_index: u8) -> (r: Result<AgentKey, MutualCreditError>)
    ensures
        match r {
            Ok(a) => author_spec(keys_view(signing_agents@), agent_index) == Some(a@),
            Err(e) => author_spec(keys_view(signing_agents@), agent_index) is None
                && e == MutualCreditError::MalformedPreflightResponse,
        },
{
    let i = agent_index as usize;
    if i < signing_agents.len() {
        Ok(signing_agents[i].copy())
    } else {
        Err(MutualCreditError::MalformedPreflightResponse)
    }
}

impl PreflightResponseSummary {
    /// The author of this response, the previous transaction its party
    /// builds on, and its chain top.
    pub fn commitment(&self) -> (r: Result<(AgentKey, Option<ActionId>, ActionId), MutualCreditError>)
        ensures
            match r {
                Ok(c) => commitment_spec(self@) == Ok::<ResponseCommitment, MutualCreditError>(ResponseCommitment {
                    author: c.0@,
                    previous: opt_view(c.1),
                    chain_top: c.2@,
                }),
                Err(e) => commitment_spec(self@) == Err::<ResponseCommitment, MutualCreditError>(e),
            },
    {
        match &self.transaction {
            None => Err(MutualCreditError::TransactionDecodeFailed),
            Some(t) => {
                let author = get_author(&self.signing_agents, self.agent_index)?;
                let party = t.get_party(&author)?;
                Ok((author, party.previous_transaction_hash, self.chain_top.copy()))
            },
        }
    }

    /// Checks this response against its author's activity.
    pub fn check_preflight_response(&self, author_activity: &ActivitySummary) -> (r: Result<(), MutualCreditError>)
        ensures
            r == check_response_spec(self@, author_activity@),
    {
        let (_author, previous, chain_top) = self.commitment()?;
        author_activity.check_transaction_is_the_latest(&previous, &chain_top)
    }
}

/// A response commits its author, the signing agent at its index, to the
/// previous transaction of the party the author plays in the response's
/// transaction, and to the response's chain top; it commits to nothing when
/// the transaction cannot be read, when the index names no signing agent,
/// or when the transaction does not name its author.
pub proof fn lemma_commitment(r: PreflightResponseView)
    ensures
        commitment_spec(r) is Ok <==> {
            &&& r.transaction is Some
            &&& (r.agent_index as int) < r.signing_agents.len()
            &&& (r.transaction->Some_0.spender.agent == r.signing_agents[r.agent_index as int]
                || r.transaction->Some_0.recipient.agent == r.signing_agents[r.agent_index as int])
        },
        commitment_spec(r) matches Ok(c) ==> {
            let t = r.transaction->Some_0;
            &&& c.author == r.signing_agents[r.agent_index as int]
            &&& c.chain_top == r.chain_top
            &&& c.previous == (if t.spender.agent == c.author { t.spender.previous } else { t.recipient.previous })
        },
        r.transaction is None ==> commitment_spec(r) == Err::<ResponseCommitment, MutualCreditError>(MutualCreditError::TransactionDecodeFailed),
{
}

} // verus!
