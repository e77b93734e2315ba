//! The initiator's side of the countersigning session of the transactions
//! zome, which writes an already built transaction: the initiator builds the
//! preflight request, has the counterparty lock its chain for it, locks its
//! own chain, asks the counterparty to write its side, and then writes its
//! own side.
//!
//! As for the request session, each call of `step` takes the outcome of the
//! host action last asked for and answers with the next state and the next
//! host action, which the caller performs.
use vstd::prelude::*;
use crate::hashes::{AgentKey, ActionId, opt_view};
use crate::error::MutualCreditError;
use crate::transaction::{Transaction, TransactionView, other_party_of};

verus! {

/// Where a session stands.
#[derive(PartialEq, Eq, Structural, Clone, Copy, Debug)]
pub enum TransactionSessionStep {
    AwaitingPreflight,
    AwaitingCounterpartyPreflight,
    AwaitingOwnLock,
    AwaitingCounterpartyCreation,
    AwaitingCreation,
    Done,
    Failed(MutualCreditError),
}

/// The host action a session asks for next.
#[derive(PartialEq, Eq, Structural, Clone, Copy, Debug)]
pub enum TransactionSessionAction {
    /// Build the preflight request for the transaction, signed by this agent
    /// and then the counterparty.
    BuildPreflight,
    /// Call `transaction_preflight` on the counterparty with the preflight
    /// request and the counterparty's expected chain top.
    CallTransactionPreflight,
    /// Accept the preflight request locally, locking this agent's chain.
    LockOwnChain,
    /// Call `request_create_countersigned_transaction` on the counterparty with both
    /// preflight responses.
    CallRequestCreateTransaction,
    /// Write the countersigned transaction from both responses.
    CreateTransaction,
    /// The session has ended; its outcome is settled.
    Finish,
    /// Nothing more to do.
    Nothing,
}

/// The outcome of the host action last asked for.
pub enum TransactionSessionEvent {
    PreflightBuilt,
    /// Whether the counterparty answered the preflight with its response.
    TransactionPreflightAnswered(bool),
    /// Whether the local chain was locked (the preflight accepted).
    OwnChainLockAnswered(bool),
    /// Whether the counterparty wrote its side of the transaction.
    RequestCreateTransactionAnswered(bool),
    /// The hash of the action that wrote the transaction.
    TransactionCreated(ActionId),
    /// A host call or zome call returned an error.
    HostCallFailed,
}

pub enum TransactionSessionEventView {
    PreflightBuilt,
    TransactionPreflightAnswered(bool),
    OwnChainLockAnswered(bool),
    RequestCreateTransactionAnswered(bool),
    TransactionCreated(Seq<u8>),
    HostCallFailed,
}

impl View for TransactionSessionEvent {
    type V = TransactionSessionEventView;

    open spec fn view(&self) -> TransactionSessionEventView {
        match self {
            TransactionSessionEvent::PreflightBuilt => TransactionSessionEventView::PreflightBuilt,
            TransactionSessionEvent::TransactionPreflightAnswered(b) => TransactionSessionEventView::TransactionPreflightAnswered(*b),
            TransactionSessionEvent::OwnChainLockAnswered(b) => TransactionSessionEventView::OwnChainLockAnswered(*b),
            TransactionSessionEvent::RequestCreateTransactionAnswered(b) => TransactionSessionEventView::RequestCreateTransactionAnswered(*b),
            TransactionSessionEvent::TransactionCreated(h) => TransactionSessionEventView::TransactionCreated(h@),
            TransactionSessionEvent::HostCallFailed => TransactionSessionEventView::HostCallFailed,
        }
    }
}

/// What the initiator hands to the session: the transaction to write and the
/// chain top it expects the counterparty to be at.
pub struct AttemptCreateTransactionInput {
    pub transaction: Transaction,
    pub counterparty_chain_top: ActionId,
}

/// A session that writes a transaction with its counterparty.
pub struct TransactionSession {
    me: AgentKey,
    counterparty: AgentKey,
    transaction: Transaction,
    counterparty_chain_top: ActionId,
    created: Option<ActionId>,
    step: TransactionSessionStep,
}

pub struct TransactionSessionView {
    pub me: Seq<u8>,
    pub counterparty: Seq<u8>,
    pub transaction: TransactionView,
    pub counterparty_chain_top: Seq<u8>,
    pub created: Option<Seq<u8>>,
    pub step: TransactionSessionStep,
}

impl View for TransactionSession {
    type V = TransactionSessionView;

    closed spec fn view(&self) -> TransactionSessionView {
        TransactionSessionView {
            me: self.me@,
            counterparty: self.counterparty@,
            transaction: self.transaction@,
            counterparty_chain_top: self.counterparty_chain_top@,
            created: opt_view(self.created),
            step: self.step,
        }
    }
}

pub open spec fn transaction_step_finished(step: TransactionSessionStep) -> bool {
    step is Done || step is Failed
}

pub open spec fn transaction_fail(s: TransactionSessionView, e: MutualCreditError) -> (TransactionSessionView, TransactionSessionAction) {
    (TransactionSessionView { step: TransactionSessionStep::Failed(e), ..s }, TransactionSessionAction::Finish)
}

pub open spec fn transaction_advance(
    s: TransactionSessionView,
    step: TransactionSessionStep,
    action: TransactionSessionAction,
) -> (TransactionSessionView, TransactionSessionAction) {
    (TransactionSessionView { step, ..s }, action)
}

/// How a session answers an event: the next state and the next action.
pub open spec fn transaction_next(
    s: TransactionSessionView,
    e: TransactionSessionEventView,
) -> (TransactionSessionView, TransactionSessionAction) {
    if transaction_step_finished(s.step) {
        (s, TransactionSessionAction::Nothing)
    } else {
        match (s.step, e) {
            (_, TransactionSessionEventView::HostCallFailed) => transaction_fail(s, MutualCreditError::HostCallFailed),
            (TransactionSessionStep::AwaitingPreflight, TransactionSessionEventView::PreflightBuilt) =>
                transaction_advance(s, TransactionSessionStep::AwaitingCounterpartyPreflight, TransactionSessionAction::CallTransactionPreflight),
            (TransactionSessionStep::AwaitingCounterpartyPreflight, TransactionSessionEventView::TransactionPreflightAnswered(ok)) => if ok {
                transaction_advance(s, TransactionSessionStep::AwaitingOwnLock, TransactionSessionAction::LockOwnChain)
            } else {
                transaction_fail(s, MutualCreditError::TransactionPreflightFailed)
            },
            (TransactionSessionStep::AwaitingOwnLock, TransactionSessionEventView::OwnChainLockAnswered(ok)) => if ok {
                transaction_advance(s, TransactionSessionStep::AwaitingCounterpartyCreation, TransactionSessionAction::CallRequestCreateTransaction)
            } else {
                transaction_fail(s, MutualCreditError::OwnChainLockFailed)
            },
            (TransactionSessionStep::AwaitingCounterpartyCreation, TransactionSessionEventView::RequestCreateTransactionAnswered(ok)) => if ok {
                transaction_advance(s, TransactionSessionStep::AwaitingCreation, TransactionSessionAction::CreateTransaction)
            } else {
                transaction_fail(s, MutualCreditError::RequestCreateTransactionFailed)
            },
            (TransactionSessionStep::AwaitingCreation, TransactionSessionEventView::TransactionCreated(h)) =>
                (TransactionSessionView { created: Some(h), step: TransactionSessionStep::Done, ..s }, TransactionSessionAction::Finish),
            _ => transaction_fail(s, MutualCreditError::UnexpectedEvent),
        }
    }
}

/// How a session starts: `me` writes `transaction` with its other party,
/// expecting that party's chain to be at `counterparty_chain_top`.
pub open spec fn transaction_start_spec(
    me: Seq<u8>,
    transaction: TransactionView,
    counterparty_chain_top: Seq<u8>,
) -> Result<TransactionSessionView, MutualCreditError> {
    match other_party_of(transaction, me) {
        None => Err(MutualCreditError::NotAParticipant),
        Some(p) => Ok(TransactionSessionView {
            me,
            counterparty: p.agent,
            transaction,
            counterparty_chain_top,
            created: None,
            step: TransactionSessionStep::AwaitingPreflight,
        }),
    }
}

/// What holds of every session at every step.
pub open spec fn transaction_session_wf(s: TransactionSessionView) -> bool {
    &&& other_party_of(s.transaction, s.me) is Some
    &&& other_party_of(s.transaction, s.me)->Some_0.agent == s.counterparty
    &&& s.step is Done ==> s.created is Some
}

pub open spec fn transaction_rank(step: TransactionSessionStep) -> int {
    match step {
        TransactionSessionStep::AwaitingPreflight => 0,
        TransactionSessionStep::AwaitingCounterpartyPreflight => 1,
        TransactionSessionStep::AwaitingOwnLock => 2,
        TransactionSessionStep::AwaitingCounterpartyCreation => 3,
        TransactionSessionStep::AwaitingCreation => 4,
        TransactionSessionStep::Done => 5,
        TransactionSessionStep::Failed(_) => 5,
    }
}

pub open spec fn transaction_action_of(step: TransactionSessionStep) -> TransactionSessionAction {
    match step {
        TransactionSessionStep::AwaitingPreflight => TransactionSessionAction::BuildPreflight,
        TransactionSessionStep::AwaitingCounterpartyPreflight => TransactionSessionAction::CallTransactionPreflight,
        TransactionSessionStep::AwaitingOwnLock => TransactionSessionAction::LockOwnChain,
        TransactionSessionStep::AwaitingCounterpartyCreation => TransactionSessionAction::CallRequestCreateTransaction,
        TransactionSessionStep::AwaitingCreation => TransactionSessionAction::CreateTransaction,
        _ => TransactionSessionAction::Finish,
    }
}

impl TransactionSession {
    /// Starts the session in which `me` writes the input's transaction with
    /// its other party, expecting that party's chain to be at the input's
    /// chain top.
    /// The session first asks for the preflight request.
    pub fn start(
        me: AgentKey,
        input: AttemptCreateTransactionInput,
    ) -> (r: Result<(TransactionSession, TransactionSessionAction), MutualCreditError>)
        ensures
            match r {
                Ok(p) => transaction_start_spec(me@, input.transaction@, input.counterparty_chain_top@)
                    == Ok::<TransactionSessionView, MutualCreditError>(p.0@)
                    && p.1 == TransactionSessionAction::BuildPreflight,
                Err(e) => transaction_start_spec(me@, input.transaction@, input.counterparty_chain_top@)
                    == Err::<TransactionSessionView, MutualCreditError>(e),
            },
    {
        let AttemptCreateTransactionInput { transaction, counterparty_chain_top } = input;
        let counterparty = transaction.get_counterparty(&me)?.agent_pub_key;
        let s = TransactionSession {
            me,
            counterparty,
            transaction,
            counterparty_chain_top,
            created: None,
            step: TransactionSessionStep::AwaitingPreflight,
        };
        Ok((s, TransactionSessionAction::BuildPreflight))
    }

    /// Takes the outcome of the last action and answers with the next action.
    pub fn step(self, event: TransactionSessionEvent) -> (r: (TransactionSession, TransactionSessionAction))
        ensures
            (r.0@, r.1) == transaction_next(self@, event@),
    {
        let mut s = self;
        match s.step {
            TransactionSessionStep::Done | TransactionSessionStep::Failed(_) => {
                return (s, TransactionSessionAction::Nothing);
            },
            _ => {},
        }
        match (s.step, event) {
            (_, TransactionSessionEvent::HostCallFailed) => {
                s.step = TransactionSessionStep::Failed(MutualCreditError::HostCallFailed);
                (s, TransactionSessionAction::Finish)
            },
            (TransactionSessionStep::AwaitingPreflight, TransactionSessionEvent::PreflightBuilt) => {
                s.step = TransactionSessionStep::AwaitingCounterpartyPreflight;
                (s, TransactionSessionAction::CallTransactionPreflight)
            },
            (TransactionSessionStep::AwaitingCounterpartyPreflight, TransactionSessionEvent::TransactionPreflightAnswered(ok)) => {
                if ok {
                    s.step = TransactionSessionStep::AwaitingOwnLock;
                    (s, TransactionSessionAction::LockOwnChain)
                } else {
                    s.step = TransactionSessionStep::Failed(MutualCreditError::TransactionPreflightFailed);
                    (s, TransactionSessionAction::Finish)
                }
            },
            (TransactionSessionStep::AwaitingOwnLock, TransactionSessionEvent::OwnChainLockAnswered(ok)) => {
                if ok {
                    s.step = TransactionSessionStep::AwaitingCounterpartyCreation;
                    (s, TransactionSessionAction::CallRequestCreateTransaction)
                } else {
                    s.step = TransactionSessionStep::Failed(MutualCreditError::OwnChainLockFailed);
                    (s, TransactionSessionAction::Finish)
                }
            },
            (TransactionSessionStep::AwaitingCounterpartyCreation, TransactionSessionEvent::RequestCreateTransactionAnswered(ok)) => {
                if ok {
                    s.step = TransactionSessionStep::AwaitingCreation;
                    (s, TransactionSessionAction::CreateTransaction)
                } else {
                    s.step = TransactionSessionStep::Failed(MutualCreditError::RequestCreateTransactionFailed);
                    (s, TransactionSessionAction::Finish)
                }
            },
            (TransactionSessionStep::AwaitingCreation, TransactionSessionEvent::TransactionCreated(h)) => {
                s.created = Some(h);
                s.step = TransactionSessionStep::Done;
                (s, TransactionSessionAction::Finish)
            },
            _ => {
                s.step = TransactionSessionStep::Failed(MutualCreditError::UnexpectedEvent);
                (s, TransactionSessionAction::Finish)
            },
        }
    }

    pub fn me(&self) -> (r: AgentKey)
        ensures
            r@ == self@.me,
    {
        self.me.copy()
    }

    /// The agent the session talks to.
    pub fn counterparty(&self) -> (r: AgentKey)
        ensures
            r@ == self@.counterparty,
    {
        self.counterparty.copy()
    }

    /// The transaction the session writes.
    pub fn transaction(&self) -> (r: Transaction)
        ensures
            r@ == self@.transaction,
    {
        self.transaction.copy()
    }

    pub fn counterparty_chain_top(&self) -> (r: ActionId)
        ensures
            r@ == self@.counterparty_chain_top,
    {
        self.counterparty_chain_top.copy()
    }

    pub fn current_step(&self) -> (r: TransactionSessionStep)
        ensures
            r == self@.step,
    {
        self.step
    }

    /// The outcome of an ended session: the hash of the action that wrote
    /// the transaction with the transaction, or the error the session ended
    /// with; `None` while the session runs.
    pub fn outcome(&self) -> (r: Option<Result<(ActionId, Transaction), MutualCreditError>>)
        ensures
            match self@.step {
                TransactionSessionStep::Failed(e) => r == Some(Err::<(ActionId, Transaction), MutualCreditError>(e)),
                TransactionSessionStep::Done => match self@.created {
                    Some(h) => match r {
                        Some(Ok(p)) => p.0@ == h && p.1@ == self@.transaction,
                        _ => false,
                    },
                    None => r is None,
                },
                _ => r is None,
            },
    {
        match self.step {
            TransactionSessionStep::Failed(e) => Some(Err(e)),
            TransactionSessionStep::Done => match &self.created {
                Some(h) => Some(Ok((h.copy(), self.transaction.copy()))),
                None => None,
            },
            _ => None,
        }
    }
}

/// A session that has started satisfies the session invariant, and its
/// counterparty is the transaction's other party.
pub proof fn lemma_transaction_start_wf(me: Seq<u8>, transaction: TransactionView, counterparty_chain_top: Seq<u8>)
    requires
        transaction_start_spec(me, transaction, counterparty_chain_top) is Ok,
    ensures
        transaction_session_wf(transaction_start_spec(me, transaction, counterparty_chain_top)->Ok_0),
{
}

/// Every step keeps the session invariant and the session's parties,
/// transaction and expected chain top.
pub proof fn lemma_transaction_next_wf(s: TransactionSessionView, e: TransactionSessionEventView)
    requires
        transaction_session_wf(s),
    ensures
        transaction_session_wf(transaction_next(s, e).0),
        transaction_next(s, e).0.me == s.me,
        transaction_next(s, e).0.counterparty == s.counterparty,
        transaction_next(s, e).0.transaction == s.transaction,
        transaction_next(s, e).0.counterparty_chain_top == s.counterparty_chain_top,
{
}

/// An ended session stays as it is and asks for nothing.
pub proof fn lemma_transaction_finished_absorbs(s: TransactionSessionView, e: TransactionSessionEventView)
    requires
        transaction_step_finished(s.step),
    ensures
        transaction_next(s, e) == (s, TransactionSessionAction::Nothing),
{
}

/// A running session either ends, asking to finish, or moves to the next
/// step of its order and asks for that step's action.
pub proof fn lemma_transaction_session_advances(s: TransactionSessionView, e: TransactionSessionEventView)
    requires
        !transaction_step_finished(s.step),
    ensures
        ({
            let (t, a) = transaction_next(s, e);
            (transaction_step_finished(t.step) && a == TransactionSessionAction::Finish)
            || (transaction_rank(t.step) == transaction_rank(s.step) + 1 && a == transaction_action_of(t.step))
        }),
{
}

/// The host actions of a session, in the order it asks for them.
pub open spec fn transaction_protocol() -> Seq<TransactionSessionAction> {
    seq![
        TransactionSessionAction::BuildPreflight,
        TransactionSessionAction::CallTransactionPreflight,
        TransactionSessionAction::LockOwnChain,
        TransactionSessionAction::CallRequestCreateTransaction,
        TransactionSessionAction::CreateTransaction,
    ]
}

/// The session after the events `es`, with
/// the actions it asked for.
pub open spec fn transaction_run(
    s: TransactionSessionView,
    es: Seq<TransactionSessionEventView>,
) -> (TransactionSessionView, Seq<TransactionSessionAction>)
    decreases es.len(),
{
    if es.len() == 0 {
        (s, Seq::empty())
    } else {
        let (t, acts) = transaction_run(s, es.drop_last());
        let (u, a) = transaction_next(t, es.last());
        (u, acts.push(a))
    }
}

pub open spec fn transaction_host_actions(acts: Seq<TransactionSessionAction>) -> Seq<TransactionSessionAction>
    decreases acts.len(),
{
    if acts.len() == 0 {
        Seq::empty()
    } else {
        let p = transaction_host_actions(acts.drop_last());
        if acts.last() == TransactionSessionAction::Finish || acts.last() == TransactionSessionAction::Nothing {
            p
        } else {
            p.push(acts.last())
        }
    }
}

/// Whatever events arrive, a started session asks the host for the steps
/// of the protocol in their order, never skipping one: in particular it
/// writes its side of the transaction only after the counterparty answered
/// the preflight, its own chain was locked and the counterparty wrote its
/// side.
pub proof fn lemma_transaction_run_follows_protocol(s0: TransactionSessionView, es: Seq<TransactionSessionEventView>)
    requires
        s0.step == TransactionSessionStep::AwaitingPreflight,
    ensures
        ({
            let (s, acts) = transaction_run(s0, es);
            let asked = seq![TransactionSessionAction::BuildPreflight] + transaction_host_actions(acts);
            &&& asked.len() <= transaction_protocol().len()
            &&& asked == transaction_protocol().take(asked.len() as int)
            &&& !transaction_step_finished(s.step) ==> asked.len() == transaction_rank(s.step) + 1
        }),
    decreases es.len(),
{
    if es.len() > 0 {
        lemma_transaction_run_follows_protocol(s0, es.drop_last());
        let (t, acts) = transaction_run(s0, es.drop_last());
        let asked = seq![TransactionSessionAction::BuildPreflight] + transaction_host_actions(acts);
        let (u, a) = transaction_next(t, es.last());
        let acts2 = acts.push(a);
        assert(acts2.drop_last() =~= acts);
        let asked2 = seq![TransactionSessionAction::BuildPreflight] + transaction_host_actions(acts2);
        if transaction_step_finished(t.step) {
            lemma_transaction_finished_absorbs(t, es.last());
            assert(asked2 =~= asked);
        } else {
            lemma_transaction_session_advances(t, es.last());
            if transaction_step_finished(u.step) && a == TransactionSessionAction::Finish {
                assert(asked2 =~= asked);
            } else {
                assert(asked2 =~= asked.push(a));
                assert(transaction_protocol().take(asked2.len() as int)
                    =~= transaction_protocol().take(asked.len() as int).push(transaction_protocol()[asked.len() as int]));
            }
        }
    } else {
        assert(transaction_host_actions(Seq::<TransactionSessionAction>::empty()) =~= Seq::<TransactionSessionAction>::empty());
        assert(seq![TransactionSessionAction::BuildPreflight] + Seq::<TransactionSessionAction>::empty()
            =~= transaction_protocol().take(1));
    }
}

/// Each host action of a session follows the success of the one before:
/// it calls the counterparty's preflight only once the preflight request is
/// built, locks its own chain only once the counterparty accepted the
/// preflight, asks the counterparty to write only once its own chain is
/// locked, and writes only once the counterparty has written; a refusal
/// ends the session with the error that names it, and a written session
/// ends with the hash of the action that wrote it.
pub proof fn lemma_transaction_steps_need_success(s: TransactionSessionView, e: TransactionSessionEventView)
    ensures
        ({
            let (t, a) = transaction_next(s, e);
            &&& a == TransactionSessionAction::CallTransactionPreflight ==>
                s.step == TransactionSessionStep::AwaitingPreflight && e == TransactionSessionEventView::PreflightBuilt
            &&& a == TransactionSessionAction::LockOwnChain ==>
                s.step == TransactionSessionStep::AwaitingCounterpartyPreflight && e == TransactionSessionEventView::TransactionPreflightAnswered(true)
            &&& a == TransactionSessionAction::CallRequestCreateTransaction ==>
                s.step == TransactionSessionStep::AwaitingOwnLock && e == TransactionSessionEventView::OwnChainLockAnswered(true)
            &&& a == TransactionSessionAction::CreateTransaction ==>
                s.step == TransactionSessionStep::AwaitingCounterpartyCreation && e == TransactionSessionEventView::RequestCreateTransactionAnswered(true)
            &&& (s.step == TransactionSessionStep::AwaitingCounterpartyPreflight && e == TransactionSessionEventView::TransactionPreflightAnswered(false))
                ==> t.step == TransactionSessionStep::Failed(MutualCreditError::TransactionPreflightFailed)
            &&& (s.step == TransactionSessionStep::AwaitingOwnLock && e == TransactionSessionEventView::OwnChainLockAnswered(false))
                ==> t.step == TransactionSessionStep::Failed(MutualCreditError::OwnChainLockFailed)
            &&& (s.step == TransactionSessionStep::AwaitingCounterpartyCreation && e == TransactionSessionEventView::RequestCreateTransactionAnswered(false))
                ==> t.step == TransactionSessionStep::Failed(MutualCreditError::RequestCreateTransactionFailed)
            &&& (!transaction_step_finished(s.step) && e == TransactionSessionEventView::HostCallFailed)
                ==> t.step == TransactionSessionStep::Failed(MutualCreditError::HostCallFailed)
            &&& (s.step == TransactionSessionStep::AwaitingCreation && e is TransactionCreated)
                ==> t.step == TransactionSessionStep::Done && t.created == Some(e->TransactionCreated_0)
                    && a == TransactionSessionAction::Finish
        }),
{
}

/// A session starts exactly when `me` takes part in the transaction; it
/// then talks to the party `me` does not play, holds the transaction and
/// the expected chain top, and first awaits the preflight request.
pub proof fn lemma_transaction_start(me: Seq<u8>, transaction: TransactionView, counterparty_chain_top: Seq<u8>)
    ensures
        ({
            let r = transaction_start_spec(me, transaction, counterparty_chain_top);
            &&& r is Ok <==> (transaction.spender.agent == me || transaction.recipient.agent == me)
            &&& r is Err ==> r == Err::<TransactionSessionView, MutualCreditError>(MutualCreditError::NotAParticipant)
            &&& r matches Ok(v) ==> {
                &&& v.me == me
                &&& v.counterparty == (if transaction.spender.agent == me { transaction.recipient.agent } else { transaction.spender.agent })
                &&& v.transaction == transaction
                &&& v.counterparty_chain_top == counterparty_chain_top
                &&& v.created is None
                &&& v.step == TransactionSessionStep::AwaitingPreflight
            }
        }),
{
}

/// A running session goes on when each step succeeds: from each step, the
/// success it awaits moves it to the next step and asks for that step's
/// host action.
pub proof fn lemma_transaction_session_goes_on(s: TransactionSessionView, h: Seq<u8>)
    ensures
        s.step == TransactionSessionStep::AwaitingPreflight ==> transaction_next(s, TransactionSessionEventView::PreflightBuilt)
            == (TransactionSessionView { step: TransactionSessionStep::AwaitingCounterpartyPreflight, ..s }, TransactionSessionAction::CallTransactionPreflight),
        s.step == TransactionSessionStep::AwaitingCounterpartyPreflight ==> transaction_next(s, TransactionSessionEventView::TransactionPreflightAnswered(true))
            == (TransactionSessionView { step: TransactionSessionStep::AwaitingOwnLock, ..s }, TransactionSessionAction::LockOwnChain),
        s.step == TransactionSessionStep::AwaitingOwnLock ==> transaction_next(s, TransactionSessionEventView::OwnChainLockAnswered(true))
            == (TransactionSessionView { step: TransactionSessionStep::AwaitingCounterpartyCreation, ..s }, TransactionSessionAction::CallRequestCreateTransaction),
        s.step == TransactionSessionStep::AwaitingCounterpartyCreation ==> transaction_next(s, TransactionSessionEventView::RequestCreateTransactionAnswered(true))
            == (TransactionSessionView { step: TransactionSessionStep::AwaitingCreation, ..s }, TransactionSessionAction::CreateTransaction),
{
}

} // verus!
