//! The responder's side of a countersigning session: the counterparty of an
//! initiator receives the initiator's preflight response, reads the
//! transaction it proposes, checks against the initiator's activity that
//! the initiator's chain is where its response says and that the
//! transaction builds on the initiator's latest transaction, only then
//! locks its own chain for the session, and writes its side of the
//! countersigned transaction, answering with its own preflight response.
use vstd::prelude::*;
use crate::hashes::{ActionId, AgentKey, opt_view};
use crate::error::MutualCreditError;
use crate::transaction::{Transaction, TransactionView};
use crate::activity::{ActivitySummary, ActivityView, latest_check_spec};
use crate::preflight::{PreflightResponseSummary, PreflightResponseView, commitment_spec, check_response_spec};

verus! {

/// Where a responder stands.
#[derive(PartialEq, Eq, Structural, Clone, Copy, Debug)]
pub enum ResponderStep {
    AwaitingInitiatorActivity,
    AwaitingOwnLock,
    AwaitingCreation,
    Done,
    Failed(MutualCreditError),
}

/// The host action a responder asks for next.
#[derive(PartialEq, Eq, Structural, Clone, Copy, Debug)]
pub enum ResponderAction {
    /// Read the transaction activity of the initiator, the author of the
    /// received response.
    FetchInitiatorActivity,
    /// Accept the received preflight request locally, locking this agent's
    /// chain and producing its own response.
    LockOwnChain,
    /// Write the countersigned transaction from this agent's response and
    /// the initiator's.
    CreateTransaction,
    /// The session has ended; answer with this agent's response, or fail.
    Finish,
    Nothing,
}

/// The outcome of the host action last asked for.
pub enum ResponderEvent {
    /// The initiator's transaction activity.
    InitiatorActivity(ActivitySummary),
    /// Whether the local chain was locked (the preflight accepted).
    OwnChainLockAnswered(bool),
    /// The hash of the action that wrote this agent's side.
    TransactionCreated(ActionId),
    HostCallFailed,
}

pub enum ResponderEventView {
    InitiatorActivity(ActivityView),
    OwnChainLockAnswered(bool),
    TransactionCreated(Seq<u8>),
    HostCallFailed,
}

impl View for ResponderEvent {
    type V = ResponderEventView;

    open spec fn view(&self) -> ResponderEventView {
        match self {
            ResponderEvent::InitiatorActivity(a) => ResponderEventView::InitiatorActivity(a@),
            ResponderEvent::OwnChainLockAnswered(b) => ResponderEventView::OwnChainLockAnswered(*b),
            ResponderEvent::TransactionCreated(h) => ResponderEventView::TransactionCreated(h@),
            ResponderEvent::HostCallFailed => ResponderEventView::HostCallFailed,
        }
    }
}

/// The responder's session.
pub struct ResponderSession {
    transaction: Transaction,
    initiator: AgentKey,
    initiator_previous_transaction: Option<ActionId>,
    initiator_chain_top: ActionId,
    created: Option<ActionId>,
    step: ResponderStep,
}

pub struct ResponderView {
    pub transaction: TransactionView,
    pub initiator: Seq<u8>,
    pub initiator_previous_transaction: Option<Seq<u8>>,
    pub initiator_chain_top: Seq<u8>,
    pub created: Option<Seq<u8>>,
    pub step: ResponderStep,
}

impl View for ResponderSession {
    type V = ResponderView;

    closed spec fn view(&self) -> ResponderView {
        ResponderView {
            transaction: self.transaction@,
            initiator: self.initiator@,
            initiator_previous_transaction: opt_view(self.initiator_previous_transaction),
            initiator_chain_top: self.initiator_chain_top@,
            created: opt_view(self.created),
            step: self.step,
        }
    }
}

pub open spec fn responder_finished(step: ResponderStep) -> bool {
    step is Done || step is Failed
}

/// How a responder starts on the initiator's response `r`: it takes the
/// transaction the response proposes and what the response commits its
/// author, the initiator, to; a response whose commitment cannot be read is
/// refused.
pub open spec fn responder_start_spec(r: PreflightResponseView) -> Result<ResponderView, MutualCreditError> {
    match commitment_spec(r) {
        Err(e) => Err(e),
        Ok(c) => Ok(ResponderView {
            transaction: r.transaction->Some_0,
            initiator: c.author,
            initiator_previous_transaction: c.previous,
            initiator_chain_top: c.chain_top,
            created: None,
            step: ResponderStep::AwaitingInitiatorActivity,
        }),
    }
}

/// How a responder answers an event.
pub open spec fn responder_next(s: ResponderView, e: ResponderEventView) -> (ResponderView, ResponderAction) {
    if responder_finished(s.step) {
        (s, ResponderAction::Nothing)
    } else {
        match (s.step, e) {
            (_, ResponderEventView::HostCallFailed) =>
                (ResponderView { step: ResponderStep::Failed(MutualCreditError::HostCallFailed), ..s }, ResponderAction::Finish),
            (ResponderStep::AwaitingInitiatorActivity, ResponderEventView::InitiatorActivity(a)) =>
                match latest_check_spec(a, s.initiator_previous_transaction, s.initiator_chain_top) {
                    Err(err) => (ResponderView { step: ResponderStep::Failed(err), ..s }, ResponderAction::Finish),
                    Ok(_) => (ResponderView { step: ResponderStep::AwaitingOwnLock, ..s }, ResponderAction::LockOwnChain),
                },
            (ResponderStep::AwaitingOwnLock, ResponderEventView::OwnChainLockAnswered(ok)) => if ok {
                (ResponderView { step: ResponderStep::AwaitingCreation, ..s }, ResponderAction::CreateTransaction)
            } else {
                (ResponderView { step: ResponderStep::Failed(MutualCreditError::OwnChainLockFailed), ..s }, ResponderAction::Finish)
            },
            (ResponderStep::AwaitingCreation, ResponderEventView::TransactionCreated(h)) =>
                (ResponderView { created: Some(h), step: ResponderStep::Done, ..s }, ResponderAction::Finish),
            _ => (ResponderView { step: ResponderStep::Failed(MutualCreditError::UnexpectedEvent), ..s }, ResponderAction::Finish),
        }
    }
}

impl ResponderSession {
    /// Starts a responder on the initiator's preflight response; the
    /// responder first asks for the initiator's activity.
    pub fn start(initiator_response: PreflightResponseSummary) -> (r: Result<(ResponderSession, ResponderAction), MutualCreditError>)
        ensures
            match r {
                Ok(p) => responder_start_spec(initiator_response@) == Ok::<ResponderView, MutualCreditError>(p.0@)
                    && p.1 == ResponderAction::FetchInitiatorActivity,
                Err(e) => responder_start_spec(initiator_response@) == Err::<ResponderView, MutualCreditError>(e),
            },
    {
        let (initiator, previous, chain_top) = initiator_response.commitment()?;
        let PreflightResponseSummary { chain_top: _, agent_index: _, signing_agents: _, transaction } = initiator_response;
        match transaction {
            None => Err(MutualCreditError::TransactionDecodeFailed),
            Some(t) => Ok((
                ResponderSession {
                    transaction: t,
                    initiator,
                    initiator_previous_transaction: previous,
                    initiator_chain_top: chain_top,
                    created: None,
                    step: ResponderStep::AwaitingInitiatorActivity,
                },
                ResponderAction::FetchInitiatorActivity,
            )),
        }
    }

    /// Takes the outcome of the last action and answers with the next action.
    pub fn step(self, event: ResponderEvent) -> (r: (ResponderSession, ResponderAction))
        ensures
            (r.0@, r.1) == responder_next(self@, event@),
    {
        let mut s = self;
        match s.step {
            ResponderStep::Done | ResponderStep::Failed(_) => {
                return (s, ResponderAction::Nothing);
            },
            _ => {},
        }
        match (s.step, event) {
            (_, ResponderEvent::HostCallFailed) => {
                s.step = ResponderStep::Failed(MutualCreditError::HostCallFailed);
                (s, ResponderAction::Finish)
            },
            (ResponderStep::AwaitingInitiatorActivity, ResponderEvent::InitiatorActivity(a)) => {
                match a.check_transaction_is_the_latest(&s.initiator_previous_transaction, &s.initiator_chain_top) {
                    Err(err) => {
                        s.step = ResponderStep::Failed(err);
                        (s, ResponderAction::Finish)
                    },
                    Ok(()) => {
                        s.step = ResponderStep::AwaitingOwnLock;
                        (s, ResponderAction::LockOwnChain)
                    },
                }
            },
            (ResponderStep::AwaitingOwnLock, ResponderEvent::OwnChainLockAnswered(ok)) => {
                if ok {
                    s.step = ResponderStep::AwaitingCreation;
                    (s, ResponderAction::CreateTransaction)
                } else {
                    s.step = ResponderStep::Failed(MutualCreditError::OwnChainLockFailed);
                    (s, ResponderAction::Finish)
                }
            },
            (ResponderStep::AwaitingCreation, ResponderEvent::TransactionCreated(h)) => {
                s.created = Some(h);
                s.step = ResponderStep::Done;
                (s, ResponderAction::Finish)
            },
            _ => {
                s.step = ResponderStep::Failed(MutualCreditError::UnexpectedEvent);
                (s, ResponderAction::Finish)
            },
        }
    }

    /// The transaction the responder writes.
    pub fn transaction(&self) -> (r: Transaction)
        ensures
            r@ == self@.transaction,
    {
        self.transaction.copy()
    }

    /// The initiator, whose activity the responder checks.
    pub fn initiator(&self) -> (r: AgentKey)
        ensures
            r@ == self@.initiator,
    {
        self.initiator.copy()
    }

    pub fn current_step(&self) -> (r: ResponderStep)
        ensures
            r == self@.step,
    {
        self.step
    }

    /// The outcome of an ended responder: the hash of the action that wrote
    /// its side, or the error it ended with; `None` while it runs.
    pub fn outcome(&self) -> (r: Option<Result<ActionId, MutualCreditError>>)
        ensures
            match self@.step {
                ResponderStep::Failed(e) => r == Some(Err::<ActionId, MutualCreditError>(e)),
                ResponderStep::Done => match self@.created {
                    Some(h) => match r {
                        Some(Ok(x)) => x@ == h,
                        _ => false,
                    },
                    None => r is None,
                },
                _ => r is None,
            },
    {
        match self.step {
            ResponderStep::Failed(e) => Some(Err(e)),
            ResponderStep::Done => match &self.created {
                Some(h) => Some(Ok(h.copy())),
                None => None,
            },
            _ => None,
        }
    }
}

/// A responder locks its chain only right after the initiator's activity
/// passed the check, writes its side only right after its own chain was
/// locked, keeps the transaction it started with, and once ended stays as
/// it is.
pub proof fn lemma_responder_creates_only_after_lock(s: ResponderView, e: ResponderEventView)
    ensures
        responder_next(s, e).1 == ResponderAction::LockOwnChain ==>
            s.step == ResponderStep::AwaitingInitiatorActivity && e is InitiatorActivity
            && latest_check_spec(e->InitiatorActivity_0, s.initiator_previous_transaction, s.initiator_chain_top) is Ok,
        responder_next(s, e).1 == ResponderAction::CreateTransaction ==>
            s.step == ResponderStep::AwaitingOwnLock && e == ResponderEventView::OwnChainLockAnswered(true),
        responder_next(s, e).0.transaction == s.transaction,
        responder_next(s, e).0.initiator_previous_transaction == s.initiator_previous_transaction,
        responder_next(s, e).0.initiator_chain_top == s.initiator_chain_top,
        responder_finished(s.step) ==> responder_next(s, e) == (s, ResponderAction::Nothing),
        (s.step is Done ==> s.created is Some) ==> (responder_next(s, e).0.step is Done ==> responder_next(s, e).0.created is Some),
{
}

/// A responder started on the initiator's response locks its chain, at its
/// first step, only when the initiator's activity passes the check of that
/// response: the initiator's chain is at the top the response froze and
/// the transaction builds on the initiator's latest transaction.
pub proof fn lemma_responder_checks_initiator(r: PreflightResponseView, e: ResponderEventView)
    requires
        responder_start_spec(r) is Ok,
    ensures
        responder_next(responder_start_spec(r)->Ok_0, e).1 == ResponderAction::LockOwnChain ==>
            e is InitiatorActivity && check_response_spec(r, e->InitiatorActivity_0) == Ok::<(), MutualCreditError>(()),
{
}

/// A responder starts exactly when the initiator's response commits its
/// author: the transaction can be read, the index names a signing agent,
/// and the transaction names that agent. It then holds that transaction,
/// the author as the initiator, the previous transaction of the author's
/// party and the response's chain top, and first awaits the initiator's
/// activity.
pub proof fn lemma_responder_start(r: PreflightResponseView)
    ensures
        responder_start_spec(r) is Ok <==> {
            &&& r.transaction is Some
            &&& (r.agent_index as int) < r.signing_agents.len()
            &&& (r.transaction->Some_0.spender.agent == r.signing_agents[r.agent_index as int]
                || r.transaction->Some_0.recipient.agent == r.signing_agents[r.agent_index as int])
        },
        responder_start_spec(r) matches Ok(v) ==> {
            let t = r.transaction->Some_0;
            let author = r.signing_agents[r.agent_index as int];
            &&& v.transaction == t
            &&& v.initiator == author
            &&& v.initiator_previous_transaction == (if t.spender.agent == author { t.spender.previous } else { t.recipient.previous })
            &&& v.initiator_chain_top == r.chain_top
            &&& v.created is None
            &&& v.step == ResponderStep::AwaitingInitiatorActivity
        },
{
}

/// A running responder goes on when each step succeeds: it locks its
/// chain when the initiator's activity shows exactly the chain top it froze
/// and ends with the previous transaction it builds on (or is empty when
/// there is none), and fails with `TransactionNotTheLatest` when the
/// activity shows that top but ends elsewhere; it writes once its chain is
/// locked and fails when it is not; once written it ends with that hash.
pub proof fn lemma_responder_goes_on(s: ResponderView, a: ActivityView, h: Seq<u8>)
    ensures
        ({
            let last = if a.valid.len() == 0 { None } else { Some(a.valid[a.valid.len() - 1]) };
            let e = ResponderEventView::InitiatorActivity(a);
            &&& (s.step == ResponderStep::AwaitingInitiatorActivity && a.highest == Some(seq![s.initiator_chain_top])
                && last == s.initiator_previous_transaction)
                ==> responder_next(s, e) == (ResponderView { step: ResponderStep::AwaitingOwnLock, ..s }, ResponderAction::LockOwnChain)
            &&& (s.step == ResponderStep::AwaitingInitiatorActivity && a.highest == Some(seq![s.initiator_chain_top])
                && last != s.initiator_previous_transaction)
                ==> responder_next(s, e).0.step == ResponderStep::Failed(MutualCreditError::TransactionNotTheLatest)
            &&& s.step == ResponderStep::AwaitingOwnLock ==>
                responder_next(s, ResponderEventView::OwnChainLockAnswered(true)).1 == ResponderAction::CreateTransaction
                && responder_next(s, ResponderEventView::OwnChainLockAnswered(false)).0.step
                    == ResponderStep::Failed(MutualCreditError::OwnChainLockFailed)
            &&& s.step == ResponderStep::AwaitingCreation ==>
                responder_next(s, ResponderEventView::TransactionCreated(h)).0.step == ResponderStep::Done
                && responder_next(s, ResponderEventView::TransactionCreated(h)).0.created == Some(h)
        }),
{
    assert(seq![s.initiator_chain_top].len() == 1);
}

} // verus!
