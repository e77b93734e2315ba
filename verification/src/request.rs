//! Transaction requests (and the offers and intents that preceded them):
//! who pays whom, and who the other agent is.
use vstd::prelude::*;
use crate::hashes::AgentKey;
use crate::error::MutualCreditError;

verus! {

/// The other participant of an exchange between `spender` and `recipient`,
/// as seen by `me`: the recipient when `me` is the spender, else the spender
/// when `me` is the recipient.
pub open spec fn counterparty_spec(me: Seq<u8>, spender: Seq<u8>, recipient: Seq<u8>) -> Option<Seq<u8>> {
    if me == spender {
        Some(recipient)
    } else if me == recipient {
        Some(spender)
    } else {
        None
    }
}

/// The other participant of an exchange between `spender` and `recipient`.
pub fn counterparty_of(me: &AgentKey, spender: &AgentKey, recipient: &AgentKey) -> (r: Result<AgentKey, MutualCreditError>)
    ensures
        match r {
            Ok(c) => counterparty_spec(me@, spender@, recipient@) == Some(c@),
            Err(e) => counterparty_spec(me@, spender@, recipient@) is None
                && e == MutualCreditError::NotAParticipant,
        },
{
    if me.same_as(spender) {
        Ok(recipient.copy())
    } else if me.same_as(recipient) {
        Ok(spender.copy())
    } else {
        Err(MutualCreditError::NotAParticipant)
    }
}

/// Whether a request sends credits to the counterparty or asks for them.
#[derive(PartialEq, Eq, Structural, Clone, Copy, Debug)]
pub enum TransactionRequestType {
    /// The author pays the counterparty.
    Send,
    /// The counterparty pays the author.
    Receive,
}

/// A proposal, created by one agent, of a transaction with another agent.
pub struct TransactionRequest {
    pub spender_pub_key: AgentKey,
    pub recipient_pub_key: AgentKey,
    /// The bits of the amount (`f64::to_bits`).
    pub amount: u64,
}

pub struct RequestView {
    pub spender: Seq<u8>,
    pub recipient: Seq<u8>,
    pub amount: u64,
}

impl View for TransactionRequest {
    type V = RequestView;

    open spec fn view(&self) -> RequestView {
        RequestView { spender: self.spender_pub_key@, recipient: self.recipient_pub_key@, amount: self.amount }
    }
}

/// What an agent asks for when it creates a transaction request.
pub struct CreateTransactionRequestInput {
    pub transaction_request_type: TransactionRequestType,
    pub counterparty_pub_key: AgentKey,
    /// The bits of the amount (`f64::to_bits`).
    pub amount: u64,
}

/// The request that `me` creates from `input`, when it is not addressed to
/// `me` itself.
pub open spec fn request_spec(
    me: Seq<u8>,
    kind: TransactionRequestType,
    counterparty: Seq<u8>,
    amount: u64,
) -> Option<RequestView> {
    if counterparty == me {
        None
    } else {
        match kind {
            TransactionRequestType::Send => Some(RequestView { spender: me, recipient: counterparty, amount }),
            TransactionRequestType::Receive => Some(RequestView { spender: counterparty, recipient: me, amount }),
        }
    }
}

impl TransactionRequest {
    pub fn copy(&self) -> (r: TransactionRequest)
        ensures
            r@ == self@,
    {
        TransactionRequest {
            spender_pub_key: self.spender_pub_key.copy(),
            recipient_pub_key: self.recipient_pub_key.copy(),
            amount: self.amount,
        }
    }

    /// The other participant of this request, as seen by `me`.
    pub fn get_counterparty(&self, me: &AgentKey) -> (r: Result<AgentKey, MutualCreditError>)
        ensures
            match r {
                Ok(c) => counterparty_spec(me@, self@.spender, self@.recipient) == Some(c@),
                Err(e) => counterparty_spec(me@, self@.spender, self@.recipient) is None
                    && e == MutualCreditError::NotAParticipant,
            },
    {
        counterparty_of(me, &self.spender_pub_key, &self.recipient_pub_key)
    }
}

/// The transaction request that `me` creates from `input`: `me` pays for a
/// `Send` and is paid for a `Receive`; a request to oneself is refused.
pub fn build_transaction_request(me: &AgentKey, input: CreateTransactionRequestInput) -> (r: Result<TransactionRequest, MutualCreditError>)
    ensures
        match r {
            Ok(t) => request_spec(me@, input.transaction_request_type, input.counterparty_pub_key@, input.amount) == Some(t@),
            Err(e) => request_spec(me@, input.transaction_request_type, input.counterparty_pub_key@, input.amount) is None
                && e == MutualCreditError::SelfTransactionRequest,
        },
        r is Err <==> input.counterparty_pub_key@ == me@,
{
    if input.counterparty_pub_key.same_as(me) {
        return Err(MutualCreditError::SelfTransactionRequest);
    }
    match input.transaction_request_type {
        TransactionRequestType::Send => Ok(TransactionRequest {
            spender_pub_key: me.copy(),
            recipient_pub_key: input.counterparty_pub_key,
            amount: input.amount,
        }),
        TransactionRequestType::Receive => Ok(TransactionRequest {
            spender_pub_key: input.counterparty_pub_key,
            recipient_pub_key: me.copy(),
            amount: input.amount,
        }),
    }
}

/// Whether an intent offers credits to the counterparty or requests them.
#[derive(PartialEq, Eq, Structural, Clone, Copy, Debug)]
pub enum IntentType {
    /// The author pays the counterparty.
    Offer,
    /// The counterparty pays the author.
    Request,
}

/// An intent of one agent to exchange credits with another: the spender,
/// the recipient and the amount, one of them being the intent's author.
pub struct Intent {
    pub spender_pub_key: AgentKey,
    pub recipient_pub_key: AgentKey,
    /// The bits of the amount (`f64::to_bits`).
    pub amount: u64,
}

impl View for Intent {
    type V = RequestView;

    open spec fn view(&self) -> RequestView {
        RequestView { spender: self.spender_pub_key@, recipient: self.recipient_pub_key@, amount: self.amount }
    }
}

/// What an agent asks for when it creates an intent.
pub struct CreateIntentInput {
    pub intent_type: IntentType,
    pub counterparty_pub_key: AgentKey,
    /// The bits of the amount (`f64::to_bits`).
    pub amount: u64,
}

/// The request kind that an intent kind stands for.
pub open spec fn intent_kind(t: IntentType) -> TransactionRequestType {
    match t {
        IntentType::Offer => TransactionRequestType::Send,
        IntentType::Request => TransactionRequestType::Receive,
    }
}

impl Intent {
    /// The other participant of this intent, as seen by `me`.
    pub fn get_counterparty(&self, me: &AgentKey) -> (r: Result<AgentKey, MutualCreditError>)
        ensures
            match r {
                Ok(c) => counterparty_spec(me@, self@.spender, self@.recipient) == Some(c@),
                Err(e) => counterparty_spec(me@, self@.spender, self@.recipient) is None
                    && e == MutualCreditError::NotAParticipant,
            },
    {
        counterparty_of(me, &self.spender_pub_key, &self.recipient_pub_key)
    }
}

/// The intent that `me` creates from `input`: `me` pays for an `Offer` and
/// is paid for a `Request`; an intent to oneself is refused.
pub fn build_intent(me: &AgentKey, input: CreateIntentInput) -> (r: Result<Intent, MutualCreditError>)
    ensures
        match r {
            Ok(t) => request_spec(me@, intent_kind(input.intent_type), input.counterparty_pub_key@, input.amount) == Some(t@),
            Err(e) => request_spec(me@, intent_kind(input.intent_type), input.counterparty_pub_key@, input.amount) is None
                && e == MutualCreditError::SelfTransactionRequest,
        },
        r is Err <==> input.counterparty_pub_key@ == me@,
{
    if input.counterparty_pub_key.same_as(me) {
        return Err(MutualCreditError::SelfTransactionRequest);
    }
    match input.intent_type {
        IntentType::Offer => Ok(Intent {
            spender_pub_key: me.copy(),
            recipient_pub_key: input.counterparty_pub_key,
            amount: input.amount,
        }),
        IntentType::Request => Ok(Intent {
            spender_pub_key: input.counterparty_pub_key,
            recipient_pub_key: me.copy(),
            amount: input.amount,
        }),
    }
}

/// A request that an agent creates names that agent as one party and the
/// counterparty it was addressed to as the other: seen from its author its
/// counterparty is the addressee, and seen from the addressee it is the
/// author.
pub proof fn lemma_created_request_counterparty(
    me: Seq<u8>,
    kind: TransactionRequestType,
    counterparty: Seq<u8>,
    amount: u64,
)
    requires
        counterparty != me,
    ensures
        request_spec(me, kind, counterparty, amount) is Some,
        counterparty_spec(
            me,
            request_spec(me, kind, counterparty, amount).unwrap().spender,
            request_spec(me, kind, counterparty, amount).unwrap().recipient,
        ) == Some(counterparty),
        counterparty_spec(
            counterparty,
            request_spec(me, kind, counterparty, amount).unwrap().spender,
            request_spec(me, kind, counterparty, amount).unwrap().recipient,
        ) == Some(me),
{
}

/// The counterparty relation is symmetric between two distinct parties:
/// whoever `me` sees as its counterparty sees `me` as its own.
pub proof fn lemma_counterparty_symmetric(me: Seq<u8>, spender: Seq<u8>, recipient: Seq<u8>)
    requires
        spender != recipient,
        counterparty_spec(me, spender, recipient) is Some,
    ensures
        counterparty_spec(counterparty_spec(me, spender, recipient).unwrap(), spender, recipient) == Some(me),
{
}

/// The counterparty of an exchange is the participant other than `me`:
/// there is one exactly when `me` takes part; it is the recipient when `me`
/// spends and the spender when `me` receives from someone else; and between
/// two distinct agents each is the other's counterparty.
pub proof fn lemma_counterparty_is_the_other(me: Seq<u8>, spender: Seq<u8>, recipient: Seq<u8>)
    ensures
        counterparty_spec(me, spender, recipient) is Some <==> (me == spender || me == recipient),
        me == spender ==> counterparty_spec(me, spender, recipient) == Some(recipient),
        me != spender && me == recipient ==> counterparty_spec(me, spender, recipient) == Some(spender),
        spender != recipient ==> counterparty_spec(spender, spender, recipient) == Some(recipient)
            && counterparty_spec(recipient, spender, recipient) == Some(spender),
{
}

/// A request is made exactly when it is addressed to someone else; its
/// author spends on a `Send` and receives on a `Receive`, the addressee
/// takes the other part, and the amount is the one asked for.
pub proof fn lemma_request_parts(me: Seq<u8>, kind: TransactionRequestType, counterparty: Seq<u8>, amount: u64)
    ensures
        request_spec(me, kind, counterparty, amount) is Some <==> counterparty != me,
        request_spec(me, kind, counterparty, amount) matches Some(r) ==> {
            &&& r.amount == amount
            &&& kind == TransactionRequestType::Send ==> r.spender == me && r.recipient == counterparty
            &&& kind == TransactionRequestType::Receive ==> r.spender == counterparty && r.recipient == me
        },
{
}

/// An offer is a request to send and a request of credits is a request to
/// receive.
pub proof fn lemma_intent_kinds()
    ensures
        intent_kind(IntentType::Offer) == TransactionRequestType::Send,
        intent_kind(IntentType::Request) == TransactionRequestType::Receive,
{
}

/// A transaction intent is an intent.
pub type TransactionIntent = Intent;

pub type TransactionIntentType = IntentType;

pub type CreateTransactionIntentInput = CreateIntentInput;

} // verus!
