//! The initiator's side of the countersigning session that settles a
//! transaction request: the agent accepting a request asks its counterparty
//! to confirm the request and its chain top, builds the transaction, locks
//! its own chain, asks the counterparty to lock and answer, checks that
//! answer against the counterparty's chain, and only then writes the
//! countersigned transaction.
//!
//! The session is a state machine: each call of `step` takes the outcome of
//! the host action last asked for and answers with the next state and the
//! next host action. The caller performs the actions (zome calls, chain
//! writes, network reads) with the data the session holds.
use vstd::prelude::*;
use crate::hashes::{AgentKey, ActionId, opt_view};
use crate::error::MutualCreditError;
use crate::transaction::{Transaction, TransactionView, previous_view};
use crate::settlement::{settling_spec, settling_transaction, settles};
use crate::request::{TransactionRequest, RequestView, counterparty_spec};
use crate::activity::{ActivitySummary, ActivityView, latest_check_spec};
use crate::preflight::{PreflightResponseSummary, PreflightResponseView, commitment_spec};

verus! {

/// Where a session stands.
#[derive(PartialEq, Eq, Structural, Clone, Copy, Debug)]
pub enum RequestSessionStep {
    AwaitingPreTransactionCheck,
    AwaitingTransactionInputs,
    AwaitingPreflight,
    AwaitingOwnLock,
    AwaitingCounterpartyResponse,
    AwaitingAuthorActivity,
    AwaitingCreation,
    Done,
    Failed(MutualCreditError),
}

/// The host action a session asks for next.
#[derive(PartialEq, Eq, Structural, Clone, Copy, Debug)]
pub enum RequestSessionAction {
    /// Call `pre_transaction_check` on the counterparty with the request
    /// hash and the counterparty's expected chain top.
    CallPreTransactionCheck,
    /// Read the latest transactions of the request's spender and recipient,
    /// and the balances the transaction that settles the request leaves them
    /// with.
    ReadTransactionInputs,
    /// Build the preflight request for the transaction, signed by this agent
    /// and then the counterparty.
    BuildPreflight,
    /// Accept the preflight request locally, locking this agent's chain.
    LockOwnChain,
    /// Call `request_create_transaction` on the counterparty with this
    /// agent's preflight response.
    CallRequestCreateTransaction,
    /// Read the transaction activity of the author of the counterparty's
    /// response.
    FetchAuthorActivity,
    /// Write the countersigned transaction from both responses.
    CreateTransaction,
    /// The session has ended; its outcome is settled.
    Finish,
    /// Nothing more to do.
    Nothing,
}

/// What the transaction that settles the request is built from: the latest
/// transactions of the request's spender and recipient, and the balances
/// (bits) the transaction leaves them with.
pub struct SettlementInputs {
    pub previous_spender_transaction: Option<(ActionId, Transaction)>,
    pub previous_recipient_transaction: Option<(ActionId, Transaction)>,
    pub resulting_spender_balance: u64,
    pub resulting_recipient_balance: u64,
}

pub struct SettlementInputsView {
    pub spender_previous: Option<(Seq<u8>, TransactionView)>,
    pub recipient_previous: Option<(Seq<u8>, TransactionView)>,
    pub spender_balance: u64,
    pub recipient_balance: u64,
}

impl View for SettlementInputs {
    type V = SettlementInputsView;

    open spec fn view(&self) -> SettlementInputsView {
        SettlementInputsView {
            spender_previous: previous_view(self.previous_spender_transaction),
            recipient_previous: previous_view(self.previous_recipient_transaction),
            spender_balance: self.resulting_spender_balance,
            recipient_balance: self.resulting_recipient_balance,
        }
    }
}

/// The outcome of the host action last asked for.
pub enum RequestSessionEvent {
    /// Whether the counterparty answered the pre-transaction check with
    /// success.
    PreTransactionCheckAnswered(bool),
    /// What the transaction is built from, or why it could not be read.
    TransactionInputsRead(Result<SettlementInputs, MutualCreditError>),
    PreflightBuilt,
    /// Whether the local chain was locked (the preflight accepted).
    OwnChainLockAnswered(bool),
    /// The counterparty's preflight response, or `None` when the call did
    /// not succeed.
    RequestCreateTransactionAnswered(Option<PreflightResponseSummary>),
    AuthorActivity(ActivitySummary),
    /// The hash of the action that wrote the transaction.
    TransactionCreated(ActionId),
    /// A host call or zome call returned an error.
    HostCallFailed,
}

pub enum RequestSessionEventView {
    PreTransactionCheckAnswered(bool),
    TransactionInputsRead(Result<SettlementInputsView, MutualCreditError>),
    PreflightBuilt,
    OwnChainLockAnswered(bool),
    RequestCreateTransactionAnswered(Option<PreflightResponseView>),
    AuthorActivity(ActivityView),
    TransactionCreated(Seq<u8>),
    HostCallFailed,
}

impl View for RequestSessionEvent {
    type V = RequestSessionEventView;

    open spec fn view(&self) -> RequestSessionEventView {
        match self {
            RequestSessionEvent::PreTransactionCheckAnswered(b) => RequestSessionEventView::PreTransactionCheckAnswered(*b),
            RequestSessionEvent::TransactionInputsRead(r) => RequestSessionEventView::TransactionInputsRead(match r {
                Ok(t) => Ok(t@),
                Err(e) => Err(*e),
            }),
            RequestSessionEvent::PreflightBuilt => RequestSessionEventView::PreflightBuilt,
            RequestSessionEvent::OwnChainLockAnswered(b) => RequestSessionEventView::OwnChainLockAnswered(*b),
            RequestSessionEvent::RequestCreateTransactionAnswered(r) => RequestSessionEventView::RequestCreateTransactionAnswered(match r {
                Some(x) => Some(x@),
                None => None,
            }),
            RequestSessionEvent::AuthorActivity(a) => RequestSessionEventView::AuthorActivity(a@),
            RequestSessionEvent::TransactionCreated(h) => RequestSessionEventView::TransactionCreated(h@),
            RequestSessionEvent::HostCallFailed => RequestSessionEventView::HostCallFailed,
        }
    }
}

/// A session that settles a transaction request.
pub struct RequestSession {
    me: AgentKey,
    counterparty: AgentKey,
    request: TransactionRequest,
    transaction_request_hash: ActionId,
    counterparty_chain_top: ActionId,
    transaction: Option<Transaction>,
    author: Option<AgentKey>,
    author_previous_transaction: Option<ActionId>,
    created: Option<ActionId>,
    step: RequestSessionStep,
}

pub struct RequestSessionView {
    pub me: Seq<u8>,
    pub counterparty: Seq<u8>,
    pub request: RequestView,
    pub transaction_request_hash: Seq<u8>,
    pub counterparty_chain_top: Seq<u8>,
    pub transaction: Option<TransactionView>,
    pub author: Option<Seq<u8>>,
    pub author_previous_transaction: Option<Seq<u8>>,
    pub created: Option<Seq<u8>>,
    pub step: RequestSessionStep,
}

impl View for RequestSession {
    type V = RequestSessionView;

    closed spec fn view(&self) -> RequestSessionView {
        RequestSessionView {
            me: self.me@,
            counterparty: self.counterparty@,
            request: self.request@,
            transaction_request_hash: self.transaction_request_hash@,
            counterparty_chain_top: self.counterparty_chain_top@,
            transaction: match self.transaction {
                Some(t) => Some(t@),
                None => None,
            },
            author: match self.author {
                Some(a) => Some(a@),
                None => None,
            },
            author_previous_transaction: opt_view(self.author_previous_transaction),
            created: opt_view(self.created),
            step: self.step,
        }
    }
}

/// Whether a session has ended.
pub open spec fn request_step_finished(step: RequestSessionStep) -> bool {
    step is Done || step is Failed
}

/// The session `s` ended with error `e`.
pub open spec fn request_fail(s: RequestSessionView, e: MutualCreditError) -> (RequestSessionView, RequestSessionAction) {
    (RequestSessionView { step: RequestSessionStep::Failed(e), ..s }, RequestSessionAction::Finish)
}

/// The session `s` moved on to `step`, asking for `action`.
pub open spec fn request_advance(
    s: RequestSessionView,
    step: RequestSessionStep,
    action: RequestSessionAction,
) -> (RequestSessionView, RequestSessionAction) {
    (RequestSessionView { step, ..s }, action)
}

/// How a session answers an event: the next state and the next action.
pub open spec fn request_next(s: RequestSessionView, e: RequestSessionEventView) -> (RequestSessionView, RequestSessionAction) {
    if request_step_finished(s.step) {
        (s, RequestSessionAction::Nothing)
    } else if e is HostCallFailed {
        request_fail(s, MutualCreditError::HostCallFailed)
    } else {
        match (s.step, e) {
            (RequestSessionStep::AwaitingPreTransactionCheck, RequestSessionEventView::PreTransactionCheckAnswered(ok)) => if ok {
                request_advance(s, RequestSessionStep::AwaitingTransactionInputs, RequestSessionAction::ReadTransactionInputs)
            } else {
                request_fail(s, MutualCreditError::PreTransactionCheckFailed)
            },
            (RequestSessionStep::AwaitingTransactionInputs, RequestSessionEventView::TransactionInputsRead(r)) => match r {
                Err(err) => request_fail(s, err),
                Ok(i) => match settling_spec(
                    s.request,
                    s.transaction_request_hash,
                    i.spender_previous,
                    i.recipient_previous,
                    i.spender_balance,
                    i.recipient_balance,
                ) {
                    Err(err) => request_fail(s, err),
                    Ok(t) => (
                        RequestSessionView { transaction: Some(t), step: RequestSessionStep::AwaitingPreflight, ..s },
                        RequestSessionAction::BuildPreflight,
                    ),
                },
            },
            (RequestSessionStep::AwaitingPreflight, RequestSessionEventView::PreflightBuilt) =>
                request_advance(s, RequestSessionStep::AwaitingOwnLock, RequestSessionAction::LockOwnChain),
            (RequestSessionStep::AwaitingOwnLock, RequestSessionEventView::OwnChainLockAnswered(ok)) => if ok {
                request_advance(s, RequestSessionStep::AwaitingCounterpartyResponse, RequestSessionAction::CallRequestCreateTransaction)
            } else {
                request_fail(s, MutualCreditError::OwnChainLockFailed)
            },
            (RequestSessionStep::AwaitingCounterpartyResponse, RequestSessionEventView::RequestCreateTransactionAnswered(r)) => match r {
                None => request_fail(s, MutualCreditError::RequestCreateTransactionFailed),
                Some(resp) => if resp.chain_top != s.counterparty_chain_top {
                    request_fail(s, MutualCreditError::CounterpartyChainMoved)
                } else {
                    match commitment_spec(resp) {
                        Err(err) => request_fail(s, err),
                        Ok(c) => (
                            RequestSessionView {
                                author: Some(c.author),
                                author_previous_transaction: c.previous,
                                step: RequestSessionStep::AwaitingAuthorActivity,
                                ..s
                            },
                            RequestSessionAction::FetchAuthorActivity,
                        ),
                    }
                },
            },
            (RequestSessionStep::AwaitingAuthorActivity, RequestSessionEventView::AuthorActivity(a)) =>
                match latest_check_spec(a, s.author_previous_transaction, s.counterparty_chain_top) {
                    Err(err) => request_fail(s, err),
                    Ok(_) => request_advance(s, RequestSessionStep::AwaitingCreation, RequestSessionAction::CreateTransaction),
                },
            (RequestSessionStep::AwaitingCreation, RequestSessionEventView::TransactionCreated(h)) => (
                RequestSessionView { created: Some(h), step: RequestSessionStep::Done, ..s },
                RequestSessionAction::Finish,
            ),
            _ => request_fail(s, MutualCreditError::UnexpectedEvent),
        }
    }
}

/// How a session starts: the accepting agent `me` reads the request
/// (`None` when its record holds none); the session talks to the request's
/// other participant.
pub open spec fn request_start_spec(
    me: Seq<u8>,
    request: Option<RequestView>,
    transaction_request_hash: Seq<u8>,
    counterparty_chain_top: Seq<u8>,
) -> Result<RequestSessionView, MutualCreditError> {
    match request {
        None => Err(MutualCreditError::MalformedTransactionRequest),
        Some(r) => match counterparty_spec(me, r.spender, r.recipient) {
            None => Err(MutualCreditError::NotAParticipant),
            Some(c) => Ok(RequestSessionView {
                me,
                counterparty: c,
                request: r,
                transaction_request_hash,
                counterparty_chain_top,
                transaction: None,
                author: None,
                author_previous_transaction: None,
                created: None,
                step: RequestSessionStep::AwaitingPreTransactionCheck,
            }),
        },
    }
}

/// What holds of every session at every step.
pub open spec fn request_session_wf(s: RequestSessionView) -> bool {
    &&& counterparty_spec(s.me, s.request.spender, s.request.recipient) == Some(s.counterparty)
    &&& (s.step is AwaitingPreTransactionCheck || s.step is AwaitingTransactionInputs) ==> s.transaction is None
    &&& !(s.step is AwaitingPreTransactionCheck || s.step is AwaitingTransactionInputs || s.step is Failed) ==> s.transaction is Some
    &&& (s.step is AwaitingAuthorActivity || s.step is AwaitingCreation || s.step is Done) ==> {
        &&& s.author is Some
    }
    &&& s.step is Done ==> s.created is Some
    &&& s.transaction matches Some(t) ==> settles(t, s.request, s.transaction_request_hash)
}

/// The position of a running step in the session's order.
pub open spec fn request_rank(step: RequestSessionStep) -> int {
    match step {
        RequestSessionStep::AwaitingPreTransactionCheck => 0,
        RequestSessionStep::AwaitingTransactionInputs => 1,
        RequestSessionStep::AwaitingPreflight => 2,
        RequestSessionStep::AwaitingOwnLock => 3,
        RequestSessionStep::AwaitingCounterpartyResponse => 4,
        RequestSessionStep::AwaitingAuthorActivity => 5,
        RequestSessionStep::AwaitingCreation => 6,
        RequestSessionStep::Done => 7,
        RequestSessionStep::Failed(_) => 7,
    }
}

/// The action a session asks for on entering a running step.
pub open spec fn request_action_of(step: RequestSessionStep) -> RequestSessionAction {
    match step {
        RequestSessionStep::AwaitingPreTransactionCheck => RequestSessionAction::CallPreTransactionCheck,
        RequestSessionStep::AwaitingTransactionInputs => RequestSessionAction::ReadTransactionInputs,
        RequestSessionStep::AwaitingPreflight => RequestSessionAction::BuildPreflight,
        RequestSessionStep::AwaitingOwnLock => RequestSessionAction::LockOwnChain,
        RequestSessionStep::AwaitingCounterpartyResponse => RequestSessionAction::CallRequestCreateTransaction,
        RequestSessionStep::AwaitingAuthorActivity => RequestSessionAction::FetchAuthorActivity,
        RequestSessionStep::AwaitingCreation => RequestSessionAction::CreateTransaction,
        _ => RequestSessionAction::Finish,
    }
}

impl RequestSession {
    pub closed spec fn spec_step(&self) -> RequestSessionStep {
        self.step
    }

    /// Starts the session in which `me` accepts `request` (`None` when the
    /// request's record holds no request), whose action hash is
    /// `transaction_request_hash`, expecting the counterparty's chain to be
    /// at `counterparty_chain_top`. The session first asks for the
    /// counterparty's pre-transaction check.
    pub fn start(
        me: AgentKey,
        request: Option<TransactionRequest>,
        transaction_request_hash: ActionId,
        counterparty_chain_top: ActionId,
    ) -> (r: Result<(RequestSession, RequestSessionAction), MutualCreditError>)
        ensures
            match r {
                Ok(p) => request_start_spec(me@, match request { Some(x) => Some(x@), None => None },
                    transaction_request_hash@, counterparty_chain_top@) == Ok::<RequestSessionView, MutualCreditError>(p.0@)
                    && p.1 == RequestSessionAction::CallPreTransactionCheck,
                Err(e) => request_start_spec(me@, match request { Some(x) => Some(x@), None => None },
                    transaction_request_hash@, counterparty_chain_top@) == Err::<RequestSessionView, MutualCreditError>(e),
            },
    {
        let request = match request {
            None => {
                return Err(MutualCreditError::MalformedTransactionRequest);
            },
            Some(r) => r,
        };
        let counterparty = request.get_counterparty(&me)?;
        let s = RequestSession {
            me,
            counterparty,
            request,
            transaction_request_hash,
            counterparty_chain_top,
            transaction: None,
            author: None,
            author_previous_transaction: None,
            created: None,
            step: RequestSessionStep::AwaitingPreTransactionCheck,
        };
        Ok((s, RequestSessionAction::CallPreTransactionCheck))
    }

    /// Takes the outcome of the last action and answers with the next action.
    pub fn step(self, event: RequestSessionEvent) -> (r: (RequestSession, RequestSessionAction))
        ensures
            (r.0@, r.1) == request_next(self@, event@),
    {
        let mut s = self;
        match s.step {
            RequestSessionStep::Done | RequestSessionStep::Failed(_) => {
                return (s, RequestSessionAction::Nothing);
            },
            _ => {},
        }
        if let RequestSessionEvent::HostCallFailed = event {
            s.step = RequestSessionStep::Failed(MutualCreditError::HostCallFailed);
            return (s, RequestSessionAction::Finish);
        }
        match (s.step, event) {
            (RequestSessionStep::AwaitingPreTransactionCheck, RequestSessionEvent::PreTransactionCheckAnswered(ok)) => {
                if ok {
                    s.step = RequestSessionStep::AwaitingTransactionInputs;
                    (s, RequestSessionAction::ReadTransactionInputs)
                } else {
                    s.step = RequestSessionStep::Failed(MutualCreditError::PreTransactionCheckFailed);
                    (s, RequestSessionAction::Finish)
                }
            },
            (RequestSessionStep::AwaitingTransactionInputs, RequestSessionEvent::TransactionInputsRead(r)) => {
                match r {
                    Err(err) => {
                        s.step = RequestSessionStep::Failed(err);
                        (s, RequestSessionAction::Finish)
                    },
                    Ok(i) => {
                        let built = settling_transaction(
                            &s.request,
                            &s.transaction_request_hash,
                            &i.previous_spender_transaction,
                            &i.previous_recipient_transaction,
                            i.resulting_spender_balance,
                            i.resulting_recipient_balance,
                        );
                        match built {
                            Err(err) => {
                                s.step = RequestSessionStep::Failed(err);
                                (s, RequestSessionAction::Finish)
                            },
                            Ok(t) => {
                                s.transaction = Some(t);
                                s.step = RequestSessionStep::AwaitingPreflight;
                                (s, RequestSessionAction::BuildPreflight)
                            },
                        }
                    },
                }
            },
            (RequestSessionStep::AwaitingPreflight, RequestSessionEvent::PreflightBuilt) => {
                s.step = RequestSessionStep::AwaitingOwnLock;
                (s, RequestSessionAction::LockOwnChain)
            },
            (RequestSessionStep::AwaitingOwnLock, RequestSessionEvent::OwnChainLockAnswered(ok)) => {
                if ok {
                    s.step = RequestSessionStep::AwaitingCounterpartyResponse;
                    (s, RequestSessionAction::CallRequestCreateTransaction)
                } else {
                    s.step = RequestSessionStep::Failed(MutualCreditError::OwnChainLockFailed);
                    (s, RequestSessionAction::Finish)
                }
            },
            (RequestSessionStep::AwaitingCounterpartyResponse, RequestSessionEvent::RequestCreateTransactionAnswered(r)) => {
                match r {
                    None => {
                        s.step = RequestSessionStep::Failed(MutualCreditError::RequestCreateTransactionFailed);
                        (s, RequestSessionAction::Finish)
                    },
                    Some(resp) => {
                        if !resp.chain_top.same_as(&s.counterparty_chain_top) {
                            s.step = RequestSessionStep::Failed(MutualCreditError::CounterpartyChainMoved);
                            (s, RequestSessionAction::Finish)
                        } else {
                            match resp.commitment() {
                                Err(err) => {
                                    s.step = RequestSessionStep::Failed(err);
                                    (s, RequestSessionAction::Finish)
                                },
                                Ok((author, previous, _chain_top)) => {
                                    s.author = Some(author);
                                    s.author_previous_transaction = previous;
                                    s.step = RequestSessionStep::AwaitingAuthorActivity;
                                    (s, RequestSessionAction::FetchAuthorActivity)
                                },
                            }
                        }
                    },
                }
            },
            (RequestSessionStep::AwaitingAuthorActivity, RequestSessionEvent::AuthorActivity(a)) => {
                let checked = a.check_transaction_is_the_latest(&s.author_previous_transaction, &s.counterparty_chain_top);
                match checked {
                    Err(err) => {
                        s.step = RequestSessionStep::Failed(err);
                        (s, RequestSessionAction::Finish)
                    },
                    Ok(()) => {
                        s.step = RequestSessionStep::AwaitingCreation;
                        (s, RequestSessionAction::CreateTransaction)
                    },
                }
            },
            (RequestSessionStep::AwaitingCreation, RequestSessionEvent::TransactionCreated(h)) => {
                s.created = Some(h);
                s.step = RequestSessionStep::Done;
                (s, RequestSessionAction::Finish)
            },
            _ => {
                s.step = RequestSessionStep::Failed(MutualCreditError::UnexpectedEvent);
                (s, RequestSessionAction::Finish)
            },
        }
    }
}

impl RequestSession {
    /// The accepting agent.
    pub fn me(&self) -> (r: AgentKey)
        ensures
            r@ == self@.me,
    {
        self.me.copy()
    }

    /// The agent the session talks to.
    pub fn counterparty(&self) -> (r: AgentKey)
        ensures
            r@ == self@.counterparty,
    {
        self.counterparty.copy()
    }

    /// The request the session settles.
    pub fn request(&self) -> (r: TransactionRequest)
        ensures
            r@ == self@.request,
    {
        self.request.copy()
    }

    pub fn transaction_request_hash(&self) -> (r: ActionId)
        ensures
            r@ == self@.transaction_request_hash,
    {
        self.transaction_request_hash.copy()
    }

    pub fn counterparty_chain_top(&self) -> (r: ActionId)
        ensures
            r@ == self@.counterparty_chain_top,
    {
        self.counterparty_chain_top.copy()
    }

    /// The transaction, once built.
    pub fn transaction(&self) -> (r: Option<Transaction>)
        ensures
            match r {
                Some(t) => self@.transaction == Some(t@),
                None => self@.transaction is None,
            },
    {
        match &self.transaction {
            Some(t) => Some(t.copy()),
            None => None,
        }
    }

    /// The author of the counterparty's response, once it is read.
    pub fn author(&self) -> (r: Option<AgentKey>)
        ensures
            match r {
                Some(a) => self@.author == Some(a@),
                None => self@.author is None,
            },
    {
        match &self.author {
            Some(a) => Some(a.copy()),
            None => None,
        }
    }

    pub fn current_step(&self) -> (r: RequestSessionStep)
        ensures
            r == self@.step,
    {
        self.step
    }

    /// The outcome of an ended session: the hash of the action that wrote
    /// the transaction with the transaction, or the error the session ended
    /// with; `None` while the session runs.
    pub fn outcome(&self) -> (r: Option<Result<(ActionId, Transaction), MutualCreditError>>)
        ensures
            match self@.step {
                RequestSessionStep::Failed(e) => r == Some(Err::<(ActionId, Transaction), MutualCreditError>(e)),
                RequestSessionStep::Done => match (self@.created, self@.transaction) {
                    (Some(h), Some(t)) => match r {
                        Some(Ok(p)) => p.0@ == h && p.1@ == t,
                        _ => false,
                    },
                    _ => r is None,
                },
                _ => r is None,
            },
    {
        match self.step {
            RequestSessionStep::Failed(e) => Some(Err(e)),
            RequestSessionStep::Done => match (&self.created, &self.transaction) {
                (Some(h), Some(t)) => Some(Ok((h.copy(), t.copy()))),
                _ => None,
            },
            _ => None,
        }
    }
}

/// A session that has started satisfies the session invariant.
pub proof fn lemma_request_start_wf(
    me: Seq<u8>,
    request: Option<RequestView>,
    transaction_request_hash: Seq<u8>,
    counterparty_chain_top: Seq<u8>,
)
    requires
        request_start_spec(me, request, transaction_request_hash, counterparty_chain_top) is Ok,
    ensures
        request_session_wf(request_start_spec(me, request, transaction_request_hash, counterparty_chain_top)->Ok_0),
        request_start_spec(me, request, transaction_request_hash, counterparty_chain_top)->Ok_0.step
            == RequestSessionStep::AwaitingPreTransactionCheck,
{
}

/// Every step keeps the session invariant.
pub proof fn lemma_request_next_wf(s: RequestSessionView, e: RequestSessionEventView)
    requires
        request_session_wf(s),
    ensures
        request_session_wf(request_next(s, e).0),
{
}

/// A step never changes who takes part, which request is settled, or which
/// chain top the counterparty is held to; once built, the transaction stays
/// the same.
pub proof fn lemma_request_next_keeps(s: RequestSessionView, e: RequestSessionEventView)
    requires
        request_session_wf(s),
    ensures
        request_next(s, e).0.me == s.me,
        request_next(s, e).0.counterparty == s.counterparty,
        request_next(s, e).0.request == s.request,
        request_next(s, e).0.transaction_request_hash == s.transaction_request_hash,
        request_next(s, e).0.counterparty_chain_top == s.counterparty_chain_top,
        s.transaction is Some ==> request_next(s, e).0.transaction == s.transaction,
{
}

/// An ended session stays as it is and asks for nothing.
pub proof fn lemma_request_finished_absorbs(s: RequestSessionView, e: RequestSessionEventView)
    requires
        request_step_finished(s.step),
    ensures
        request_next(s, e) == (s, RequestSessionAction::Nothing),
{
}

/// A running session either ends, asking to finish, or moves to the next
/// step of its order and asks for that step's action.
pub proof fn lemma_request_session_advances(s: RequestSessionView, e: RequestSessionEventView)
    requires
        !request_step_finished(s.step),
    ensures
        ({
            let (t, a) = request_next(s, e);
            (request_step_finished(t.step) && a == RequestSessionAction::Finish)
            || (request_rank(t.step) == request_rank(s.step) + 1 && a == request_action_of(t.step))
        }),
{
}

/// The countersigned transaction is written only after the author of the
/// counterparty's answer has been found, on the chain top the session
/// expects, to build on its latest transaction.
pub proof fn lemma_request_creates_only_after_check(s: RequestSessionView, e: RequestSessionEventView)
    requires
        request_next(s, e).1 == RequestSessionAction::CreateTransaction,
    ensures
        s.step == RequestSessionStep::AwaitingAuthorActivity,
        e is AuthorActivity,
        latest_check_spec(e->AuthorActivity_0, s.author_previous_transaction, s.counterparty_chain_top) is Ok,
{
}

/// The author of the counterparty's answer is checked against the party it
/// plays in the answered transaction: after an answer that stays on the
/// expected chain top, whose transaction names its author (the signing
/// agent at its index), the session asks for the author's activity and
/// holds that author and the previous transaction of the author's party;
/// an author whose activity shows exactly that chain top and ends with that
/// previous transaction (or is empty when there is none) passes, and the
/// transaction is then written; an author whose activity ends elsewhere
/// fails.
pub proof fn lemma_request_checks_author_against_its_party(
    s: RequestSessionView,
    resp: PreflightResponseView,
    a: ActivityView,
)
    requires
        s.step == RequestSessionStep::AwaitingCounterpartyResponse,
        resp.chain_top == s.counterparty_chain_top,
        resp.transaction is Some,
        (resp.agent_index as int) < resp.signing_agents.len(),
        resp.transaction->Some_0.spender.agent == resp.signing_agents[resp.agent_index as int]
            || resp.transaction->Some_0.recipient.agent == resp.signing_agents[resp.agent_index as int],
        a.highest == Some(seq![s.counterparty_chain_top]),
    ensures
        ({
            let t = resp.transaction->Some_0;
            let author = resp.signing_agents[resp.agent_index as int];
            let previous = if t.spender.agent == author { t.spender.previous } else { t.recipient.previous };
            let s1 = request_next(s, RequestSessionEventView::RequestCreateTransactionAnswered(Some(resp))).0;
            let act1 = request_next(s, RequestSessionEventView::RequestCreateTransactionAnswered(Some(resp))).1;
            let last = if a.valid.len() == 0 { None } else { Some(a.valid[a.valid.len() - 1]) };
            &&& act1 == RequestSessionAction::FetchAuthorActivity
            &&& s1.step == RequestSessionStep::AwaitingAuthorActivity
            &&& s1.author == Some(author)
            &&& s1.author_previous_transaction == previous
            &&& (last == previous ==> request_next(s1, RequestSessionEventView::AuthorActivity(a))
                == (RequestSessionView { step: RequestSessionStep::AwaitingCreation, ..s1 }, RequestSessionAction::CreateTransaction))
            &&& (last != previous ==> request_next(s1, RequestSessionEventView::AuthorActivity(a)).0.step
                == RequestSessionStep::Failed(MutualCreditError::TransactionNotTheLatest))
        }),
{
    let t = resp.transaction->Some_0;
    assert(seq![s.counterparty_chain_top].len() == 1);
}

/// The transaction a session builds from the inputs it reads is between the
/// request's spender and recipient, for the request's amount, points each
/// party at its own previous transaction, and leaves the spender the
/// spender's balance and the recipient the recipient's; it is built exactly
/// when the request's hash is an action hash and each previous transaction
/// names the party it precedes.
pub proof fn lemma_request_builds_from_its_inputs(s: RequestSessionView, i: SettlementInputsView)
    requires
        s.step == RequestSessionStep::AwaitingTransactionInputs,
    ensures
        ({
            let (s1, act) = request_next(s, RequestSessionEventView::TransactionInputsRead(Ok(i)));
            let names_spender = match i.spender_previous {
                None => true,
                Some(p) => p.1.spender.agent == s.request.spender || p.1.recipient.agent == s.request.spender,
            };
            let names_recipient = match i.recipient_previous {
                None => true,
                Some(p) => p.1.spender.agent == s.request.recipient || p.1.recipient.agent == s.request.recipient,
            };
            let built = s.transaction_request_hash.len() == 39
                && s.transaction_request_hash.subrange(0, 3) == seq![0x84u8, 0x29u8, 0x24u8]
                && names_spender && names_recipient;
            &&& built ==> act == RequestSessionAction::BuildPreflight && s1.transaction is Some && {
                let t = s1.transaction->Some_0;
                &&& t.spender.agent == s.request.spender
                &&& t.recipient.agent == s.request.recipient
                &&& t.amount == s.request.amount
                &&& t.spender.balance == i.spender_balance
                &&& t.recipient.balance == i.recipient_balance
                &&& t.spender.previous == (match i.spender_previous { None => None, Some(p) => Some(p.0) })
                &&& t.recipient.previous == (match i.recipient_previous { None => None, Some(p) => Some(p.0) })
            }
            &&& !built ==> act == RequestSessionAction::Finish && s1.step is Failed
        }),
{
}

/// Each host action of a session follows the success of the one before:
/// it reads the transaction's inputs only once the counterparty passed the
/// pre-transaction check, locks its own chain only once the preflight
/// request is built, calls the counterparty only once its own chain is
/// locked; a refusal ends the session with the error that names it, and a
/// written session ends with the hash of the action that wrote it.
pub proof fn lemma_request_steps_need_success(s: RequestSessionView, e: RequestSessionEventView)
    ensures
        ({
            let (t, a) = request_next(s, e);
            &&& a == RequestSessionAction::ReadTransactionInputs ==>
                s.step == RequestSessionStep::AwaitingPreTransactionCheck && e == RequestSessionEventView::PreTransactionCheckAnswered(true)
            &&& a == RequestSessionAction::LockOwnChain ==>
                s.step == RequestSessionStep::AwaitingPreflight && e == RequestSessionEventView::PreflightBuilt
            &&& a == RequestSessionAction::CallRequestCreateTransaction ==>
                s.step == RequestSessionStep::AwaitingOwnLock && e == RequestSessionEventView::OwnChainLockAnswered(true)
            &&& a == RequestSessionAction::FetchAuthorActivity ==>
                s.step == RequestSessionStep::AwaitingCounterpartyResponse && e is RequestCreateTransactionAnswered
                && e->RequestCreateTransactionAnswered_0 is Some
                && e->RequestCreateTransactionAnswered_0->Some_0.chain_top == s.counterparty_chain_top
            &&& (s.step == RequestSessionStep::AwaitingPreTransactionCheck && e == RequestSessionEventView::PreTransactionCheckAnswered(false))
                ==> t.step == RequestSessionStep::Failed(MutualCreditError::PreTransactionCheckFailed)
            &&& (s.step == RequestSessionStep::AwaitingOwnLock && e == RequestSessionEventView::OwnChainLockAnswered(false))
                ==> t.step == RequestSessionStep::Failed(MutualCreditError::OwnChainLockFailed)
            &&& (s.step == RequestSessionStep::AwaitingCounterpartyResponse
                && e == RequestSessionEventView::RequestCreateTransactionAnswered(None))
                ==> t.step == RequestSessionStep::Failed(MutualCreditError::RequestCreateTransactionFailed)
            &&& (s.step == RequestSessionStep::AwaitingCounterpartyResponse && e is RequestCreateTransactionAnswered
                && e->RequestCreateTransactionAnswered_0 is Some
                && e->RequestCreateTransactionAnswered_0->Some_0.chain_top != s.counterparty_chain_top)
                ==> t.step == RequestSessionStep::Failed(MutualCreditError::CounterpartyChainMoved)
            &&& (!request_step_finished(s.step) && e == RequestSessionEventView::HostCallFailed)
                ==> t.step == RequestSessionStep::Failed(MutualCreditError::HostCallFailed)
            &&& (s.step == RequestSessionStep::AwaitingCreation && e is TransactionCreated)
                ==> t.step == RequestSessionStep::Done && t.created == Some(e->TransactionCreated_0)
                    && a == RequestSessionAction::Finish
        }),
{
}

/// A session starts exactly when there is a request and `me` takes part in
/// it; it then talks to the request's other participant, holds the request,
/// its hash and the expected chain top, has built nothing, and first awaits
/// the pre-transaction check.
pub proof fn lemma_request_start(
    me: Seq<u8>,
    request: Option<RequestView>,
    transaction_request_hash: Seq<u8>,
    counterparty_chain_top: Seq<u8>,
)
    ensures
        ({
            let r = request_start_spec(me, request, transaction_request_hash, counterparty_chain_top);
            &&& request is None ==> r == Err::<RequestSessionView, MutualCreditError>(MutualCreditError::MalformedTransactionRequest)
            &&& request matches Some(q) ==> (r is Ok <==> (q.spender == me || q.recipient == me))
            &&& (request matches Some(q) && q.spender != me && q.recipient != me)
                ==> r == Err::<RequestSessionView, MutualCreditError>(MutualCreditError::NotAParticipant)
            &&& r matches Ok(v) ==> {
                let q = request->Some_0;
                &&& v.me == me
                &&& v.counterparty == (if q.spender == me { q.recipient } else { q.spender })
                &&& v.request == q
                &&& v.transaction_request_hash == transaction_request_hash
                &&& v.counterparty_chain_top == counterparty_chain_top
                &&& v.transaction is None
                &&& v.author is None
                &&& v.created is None
                &&& v.step == RequestSessionStep::AwaitingPreTransactionCheck
            }
        }),
{
}

/// A running session goes on when each step succeeds: from each step, the
/// success it awaits moves it to the next step and asks for that step's
/// host action.
pub proof fn lemma_request_session_goes_on(s: RequestSessionView)
    ensures
        s.step == RequestSessionStep::AwaitingPreTransactionCheck ==> request_next(s, RequestSessionEventView::PreTransactionCheckAnswered(true))
            == (RequestSessionView { step: RequestSessionStep::AwaitingTransactionInputs, ..s }, RequestSessionAction::ReadTransactionInputs),
        s.step == RequestSessionStep::AwaitingPreflight ==> request_next(s, RequestSessionEventView::PreflightBuilt)
            == (RequestSessionView { step: RequestSessionStep::AwaitingOwnLock, ..s }, RequestSessionAction::LockOwnChain),
        s.step == RequestSessionStep::AwaitingOwnLock ==> request_next(s, RequestSessionEventView::OwnChainLockAnswered(true))
            == (RequestSessionView { step: RequestSessionStep::AwaitingCounterpartyResponse, ..s }, RequestSessionAction::CallRequestCreateTransaction),
{
}

/// The host actions of a session, in the order it asks for them.
pub open spec fn request_protocol() -> Seq<RequestSessionAction> {
    seq![
        RequestSessionAction::CallPreTransactionCheck,
        RequestSessionAction::ReadTransactionInputs,
        RequestSessionAction::BuildPreflight,
        RequestSessionAction::LockOwnChain,
        RequestSessionAction::CallRequestCreateTransaction,
        RequestSessionAction::FetchAuthorActivity,
        RequestSessionAction::CreateTransaction,
    ]
}

/// The session after the events `es`, with the actions it asked for.
pub open spec fn request_run(s: RequestSessionView, es: Seq<RequestSessionEventView>) -> (RequestSessionView, Seq<RequestSessionAction>)
    decreases es.len(),
{
    if es.len() == 0 {
        (s, Seq::empty())
    } else {
        let (t, acts) = request_run(s, es.drop_last());
        let (u, a) = request_next(t, es.last());
        (u, acts.push(a))
    }
}

/// The actions of a list that ask the host for something.
pub open spec fn request_host_actions(acts: Seq<RequestSessionAction>) -> Seq<RequestSessionAction>
    decreases acts.len(),
{
    if acts.len() == 0 {
        Seq::empty()
    } else {
        let p = request_host_actions(acts.drop_last());
        if acts.last() == RequestSessionAction::Finish || acts.last() == RequestSessionAction::Nothing {
            p
        } else {
            p.push(acts.last())
        }
    }
}

/// Whatever events arrive, a started session asks the host for the steps
/// of the protocol in their order, never skipping one: what it has asked
/// for (its first action included) is always a prefix of the protocol. In
/// particular it writes the transaction only after the pre-transaction
/// check, the transaction, the preflight, its own lock, the counterparty's
/// answer and the author's activity.
pub proof fn lemma_request_run_follows_protocol(s0: RequestSessionView, es: Seq<RequestSessionEventView>)
    requires
        s0.step == RequestSessionStep::AwaitingPreTransactionCheck,
    ensures
        ({
            let (s, acts) = request_run(s0, es);
            let asked = seq![RequestSessionAction::CallPreTransactionCheck] + request_host_actions(acts);
            &&& asked.len() <= request_protocol().len()
            &&& asked == request_protocol().take(asked.len() as int)
            &&& !request_step_finished(s.step) ==> asked.len() == request_rank(s.step) + 1
        }),
    decreases es.len(),
{
    if es.len() > 0 {
        lemma_request_run_follows_protocol(s0, es.drop_last());
        let (t, acts) = request_run(s0, es.drop_last());
        let asked = seq![RequestSessionAction::CallPreTransactionCheck] + request_host_actions(acts);
        let (u, a) = request_next(t, es.last());
        let acts2 = acts.push(a);
        assert(acts2.drop_last() =~= acts);
        let asked2 = seq![RequestSessionAction::CallPreTransactionCheck] + request_host_actions(acts2);
        if request_step_finished(t.step) {
            lemma_request_finished_absorbs(t, es.last());
            assert(asked2 =~= asked);
        } else {
            lemma_request_session_advances(t, es.last());
            if request_step_finished(u.step) && a == RequestSessionAction::Finish {
                assert(asked2 =~= asked);
            } else {
                assert(asked2 =~= asked.push(a));
                assert(request_protocol().take(asked2.len() as int) =~= request_protocol().take(asked.len() as int).push(request_protocol()[asked.len() as int]));
            }
        }
    } else {
        assert(request_host_actions(Seq::<RequestSessionAction>::empty()) =~= Seq::<RequestSessionAction>::empty());
        assert(seq![RequestSessionAction::CallPreTransactionCheck] + Seq::<RequestSessionAction>::empty()
            =~= request_protocol().take(1));
    }
}

/// Whatever events arrive, a session keeps its invariant, its request and
/// the request's hash, and the transaction it has built settles that
/// request.
pub proof fn lemma_request_run_settles(s0: RequestSessionView, es: Seq<RequestSessionEventView>)
    requires
        request_session_wf(s0),
    ensures
        ({
            let s = request_run(s0, es).0;
            &&& request_session_wf(s)
            &&& s.request == s0.request
            &&& s.transaction_request_hash == s0.transaction_request_hash
            &&& s.transaction matches Some(t) ==> settles(t, s0.request, s0.transaction_request_hash)
        }),
    decreases es.len(),
{
    if es.len() > 0 {
        lemma_request_run_settles(s0, es.drop_last());
        let t = request_run(s0, es.drop_last()).0;
        lemma_request_next_wf(t, es.last());
        lemma_request_next_keeps(t, es.last());
    }
}

/// Accepting a request writes the transaction that settles it: when the
/// session started on the request ends with success, whatever events led
/// there, it has written a transaction between the request's spender and
/// recipient, for the request's amount, carrying the request's hash.
pub proof fn lemma_accepted_request_is_settled(
    me: Seq<u8>,
    request: RequestView,
    transaction_request_hash: Seq<u8>,
    counterparty_chain_top: Seq<u8>,
    es: Seq<RequestSessionEventView>,
)
    requires
        request_start_spec(me, Some(request), transaction_request_hash, counterparty_chain_top) is Ok,
    ensures
        ({
            let s0 = request_start_spec(me, Some(request), transaction_request_hash, counterparty_chain_top)->Ok_0;
            let s = request_run(s0, es).0;
            s.step is Done ==> {
                &&& s.created is Some
                &&& s.transaction is Some
                &&& settles(s.transaction->Some_0, request, transaction_request_hash)
            }
        }),
{
    lemma_request_start_wf(me, Some(request), transaction_request_hash, counterparty_chain_top);
    let s0 = request_start_spec(me, Some(request), transaction_request_hash, counterparty_chain_top)->Ok_0;
    lemma_request_run_settles(s0, es);
}

/// When the addressee of a request accepts it, the session it starts talks
/// to the request's author, who differs from the addressee.
pub proof fn lemma_accepting_created_request(
    author: Seq<u8>,
    kind: crate::request::TransactionRequestType,
    addressee: Seq<u8>,
    amount: u64,
    transaction_request_hash: Seq<u8>,
    counterparty_chain_top: Seq<u8>,
)
    requires
        addressee != author,
    ensures
        ({
            let r = crate::request::request_spec(author, kind, addressee, amount);
            let s = request_start_spec(addressee, r, transaction_request_hash, counterparty_chain_top);
            &&& s is Ok
            &&& s->Ok_0.counterparty == author
            &&& s->Ok_0.counterparty != s->Ok_0.me
        }),
{
}

} // verus!
