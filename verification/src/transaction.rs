//! Transactions between two agents and the parties they name.
//!
//! Amounts and balances are IEEE-754 double precision numbers in the
//! application. The decisions here never compute with them: they carry them
//! as the 64 bits of their representation (`f64::to_bits`), so a balance is
//! moved from one transaction to the next exactly as it was written.
use vstd::prelude::*;
use crate::hashes::{AgentKey, ActionId, opt_view, copy_opt, copy_bytes};
use crate::error::MutualCreditError;

verus! {

/// The bits of the balance an agent has before its first transaction (`0.0`).
pub const ZERO_BALANCE: u64 = 0;

/// One side of a transaction.
pub struct TransactionParty {
    pub agent_pub_key: AgentKey,
    /// The hash of this agent's previous transaction, if it has one.
    pub previous_transaction_hash: Option<ActionId>,
    /// The bits of this agent's balance after the transaction.
    pub resulting_balance: u64,
}

pub struct PartyView {
    pub agent: Seq<u8>,
    pub previous: Option<Seq<u8>>,
    pub balance: u64,
}

impl View for TransactionParty {
    type V = PartyView;

    open spec fn view(&self) -> PartyView {
        PartyView {
            agent: self.agent_pub_key@,
            previous: opt_view(self.previous_transaction_hash),
            balance: self.resulting_balance,
        }
    }
}

impl TransactionParty {
    pub fn copy(&self) -> (r: TransactionParty)
        ensures
            r@ == self@,
    {
        TransactionParty {
            agent_pub_key: self.agent_pub_key.copy(),
            previous_transaction_hash: copy_opt(&self.previous_transaction_hash),
            resulting_balance: self.resulting_balance,
        }
    }
}

/// A countersigned transfer of credits from a spender to a recipient.
pub struct Transaction {
    pub spender: TransactionParty,
    pub recipient: TransactionParty,
    /// The bits of the amount transferred.
    pub amount: u64,
    /// Application data; for a transaction that settles a transaction
    /// request, the serialized hash of that request.
    pub info: Vec<u8>,
}

pub struct TransactionView {
    pub spender: PartyView,
    pub recipient: PartyView,
    pub amount: u64,
    pub info: Seq<u8>,
}

impl View for Transaction {
    type V = TransactionView;

    open spec fn view(&self) -> TransactionView {
        TransactionView {
            spender: self.spender@,
            recipient: self.recipient@,
            amount: self.amount,
            info: self.info@,
        }
    }
}

/// The party of `t` that `agent` is: the spender first, then the recipient.
pub open spec fn party_of(t: TransactionView, agent: Seq<u8>) -> Option<PartyView> {
    if t.spender.agent == agent {
        Some(t.spender)
    } else if t.recipient.agent == agent {
        Some(t.recipient)
    } else {
        None
    }
}

/// The party of `t` that is not `me`, when `me` takes part in `t`.
pub open spec fn other_party_of(t: TransactionView, me: Seq<u8>) -> Option<PartyView> {
    if t.spender.agent == me {
        Some(t.recipient)
    } else if t.recipient.agent == me {
        Some(t.spender)
    } else {
        None
    }
}

/// The bits of `agent`'s balance after `previous`, or zero without one.
pub open spec fn balance_after(agent: Seq<u8>, previous: Option<TransactionView>) -> Option<u64> {
    match previous {
        None => Some(ZERO_BALANCE),
        Some(t) => match party_of(t, agent) {
            Some(p) => Some(p.balance),
            None => None,
        },
    }
}

pub open spec fn opt_tx_view(t: Option<Transaction>) -> Option<TransactionView> {
    match t {
        Some(x) => Some(x@),
        None => None,
    }
}

pub open spec fn prev_tx_view(t: Option<(ActionId, Transaction)>) -> Option<TransactionView> {
    match t {
        Some(p) => Some(p.1@),
        None => None,
    }
}

/// The transaction between `spender` and `recipient` that follows their
/// previous transactions (given by hash) and leaves them the given balances.
pub open spec fn next_transaction_spec(
    spender: Seq<u8>,
    recipient: Seq<u8>,
    spender_previous: Option<Seq<u8>>,
    recipient_previous: Option<Seq<u8>>,
    amount: u64,
    info: Seq<u8>,
    spender_balance: u64,
    recipient_balance: u64,
) -> TransactionView {
    TransactionView {
        spender: PartyView { agent: spender, previous: spender_previous, balance: spender_balance },
        recipient: PartyView { agent: recipient, previous: recipient_previous, balance: recipient_balance },
        amount,
        info,
    }
}

/// A previous transaction, by its hash and its view.
pub open spec fn previous_view(t: Option<(ActionId, Transaction)>) -> Option<(Seq<u8>, TransactionView)> {
    match t {
        Some(p) => Some((p.0@, p.1@)),
        None => None,
    }
}

pub open spec fn previous_transaction_of(p: Option<(Seq<u8>, TransactionView)>) -> Option<TransactionView> {
    match p {
        Some(x) => Some(x.1),
        None => None,
    }
}

pub open spec fn previous_hash_of(p: Option<(Seq<u8>, TransactionView)>) -> Option<Seq<u8>> {
    match p {
        Some(x) => Some(x.0),
        None => None,
    }
}

/// The transaction between `spender` and `recipient` that follows their
/// previous transactions and leaves them the given balances; refused when a
/// previous transaction does not name the party it is the previous
/// transaction of.
pub open spec fn following_transaction_spec(
    spender: Seq<u8>,
    recipient: Seq<u8>,
    spender_previous: Option<(Seq<u8>, TransactionView)>,
    recipient_previous: Option<(Seq<u8>, TransactionView)>,
    amount: u64,
    info: Seq<u8>,
    spender_balance: u64,
    recipient_balance: u64,
) -> Result<TransactionView, MutualCreditError> {
    if balance_after(spender, previous_transaction_of(spender_previous)) is None
        || balance_after(recipient, previous_transaction_of(recipient_previous)) is None {
        Err(MutualCreditError::AgentNotInTransaction)
    } else {
        Ok(next_transaction_spec(
            spender,
            recipient,
            previous_hash_of(spender_previous),
            previous_hash_of(recipient_previous),
            amount,
            info,
            spender_balance,
            recipient_balance,
        ))
    }
}

impl Transaction {
    pub fn copy(&self) -> (r: Transaction)
        ensures
            r@ == self@,
    {
        Transaction {
            spender: self.spender.copy(),
            recipient: self.recipient.copy(),
            amount: self.amount,
            info: copy_bytes(&self.info),
        }
    }

    /// The party that `agent_pub_key` is in this transaction.
    pub fn get_party(&self, agent_pub_key: &AgentKey) -> (r: Result<TransactionParty, MutualCreditError>)
        ensures
            match r {
                Ok(p) => party_of(self@, agent_pub_key@) == Some(p@),
                Err(e) => party_of(self@, agent_pub_key@) is None
                    && e == MutualCreditError::AgentNotInTransaction,
            },
    {
        if self.spender.agent_pub_key.same_as(agent_pub_key) {
            Ok(self.spender.copy())
        } else if self.recipient.agent_pub_key.same_as(agent_pub_key) {
            Ok(self.recipient.copy())
        } else {
            Err(MutualCreditError::AgentNotInTransaction)
        }
    }

    /// The party of this transaction that is not `me`.
    pub fn get_counterparty(&self, me: &AgentKey) -> (r: Result<TransactionParty, MutualCreditError>)
        ensures
            match r {
                Ok(p) => other_party_of(self@, me@) == Some(p@),
                Err(e) => other_party_of(self@, me@) is None
                    && e == MutualCreditError::NotAParticipant,
            },
    {
        if self.spender.agent_pub_key.same_as(me) {
            Ok(self.recipient.copy())
        } else if self.recipient.agent_pub_key.same_as(me) {
            Ok(self.spender.copy())
        } else {
            Err(MutualCreditError::NotAParticipant)
        }
    }

    /// The balances (bits) the spender and the recipient hold before a new
    /// transaction between them, read from their previous transactions; the
    /// spender's is read first.
    pub fn previous_balances(
        spender: &AgentKey,
        recipient: &AgentKey,
        previous_spender_transaction: &Option<(ActionId, Transaction)>,
        previous_recipient_transaction: &Option<(ActionId, Transaction)>,
    ) -> (r: Result<(u64, u64), MutualCreditError>)
        ensures
            match r {
                Ok(b) => balance_after(spender@, prev_tx_view(*previous_spender_transaction)) == Some(b.0)
                    && balance_after(recipient@, prev_tx_view(*previous_recipient_transaction)) == Some(b.1),
                Err(e) => e == MutualCreditError::AgentNotInTransaction && (
                    balance_after(spender@, prev_tx_view(*previous_spender_transaction)) is None
                    || balance_after(recipient@, prev_tx_view(*previous_recipient_transaction)) is None),
            },
            r is Ok <==> (balance_after(spender@, prev_tx_view(*previous_spender_transaction)) is Some
                && balance_after(recipient@, prev_tx_view(*previous_recipient_transaction)) is Some),
    {
        let s = match previous_spender_transaction {
            None => None,
            Some(p) => Some(p.1.copy()),
        };
        let spender_balance = balance_from_previous_transaction(spender, &s)?;
        let rc = match previous_recipient_transaction {
            None => None,
            Some(p) => Some(p.1.copy()),
        };
        let recipient_balance = balance_from_previous_transaction(recipient, &rc)?;
        Ok((spender_balance, recipient_balance))
    }

    /// Builds the transaction that follows the parties' previous transactions:
    /// each party points at the hash of its previous transaction and carries
    /// the resulting balance given for it. A previous transaction that does
    /// not name its party is refused.
    pub fn from_previous_transactions(
        spender: AgentKey,
        recipient: AgentKey,
        previous_spender_transaction: &Option<(ActionId, Transaction)>,
        previous_recipient_transaction: &Option<(ActionId, Transaction)>,
        amount: u64,
        info: Vec<u8>,
        resulting_spender_balance: u64,
        resulting_recipient_balance: u64,
    ) -> (r: Result<Transaction, MutualCreditError>)
        ensures
            match r {
                Ok(t) => following_transaction_spec(
                    spender@,
                    recipient@,
                    previous_view(*previous_spender_transaction),
                    previous_view(*previous_recipient_transaction),
                    amount,
                    info@,
                    resulting_spender_balance,
                    resulting_recipient_balance,
                ) == Ok::<TransactionView, MutualCreditError>(t@),
                Err(e) => following_transaction_spec(
                    spender@,
                    recipient@,
                    previous_view(*previous_spender_transaction),
                    previous_view(*previous_recipient_transaction),
                    amount,
                    info@,
                    resulting_spender_balance,
                    resulting_recipient_balance,
                ) == Err::<TransactionView, MutualCreditError>(e),
            },
    {
        let _balances = Transaction::previous_balances(
            &spender,
            &recipient,
            previous_spender_transaction,
            previous_recipient_transaction,
        )?;
        let spender_previous = match previous_spender_transaction {
            None => None,
            Some(p) => Some(p.0.copy()),
        };
        let recipient_previous = match previous_recipient_transaction {
            None => None,
            Some(p) => Some(p.0.copy()),
        };
        Ok(Transaction {
            spender: TransactionParty {
                agent_pub_key: spender,
                previous_transaction_hash: spender_previous,
                resulting_balance: resulting_spender_balance,
            },
            recipient: TransactionParty {
                agent_pub_key: recipient,
                previous_transaction_hash: recipient_previous,
                resulting_balance: resulting_recipient_balance,
            },
            amount,
            info,
        })
    }
}

/// The bits of `for_agent`'s balance after `previous_transaction`; zero
/// when there is none.
pub fn balance_from_previous_transaction(
    for_agent: &AgentKey,
    previous_transaction: &Option<Transaction>,
) -> (r: Result<u64, MutualCreditError>)
    ensures
        match r {
            Ok(b) => balance_after(for_agent@, opt_tx_view(*previous_transaction)) == Some(b),
            Err(e) => balance_after(for_agent@, opt_tx_view(*previous_transaction)) is None
                && e == MutualCreditError::AgentNotInTransaction,
        },
{
    match previous_transaction {
        None => Ok(ZERO_BALANCE),
        Some(txn) => {
            let party = txn.get_party(for_agent)?;
            Ok(party.resulting_balance)
        },
    }
}

/// A party of a transaction is found again by its own key.
pub proof fn lemma_parties_found_by_key(t: TransactionView)
    ensures
        party_of(t, t.spender.agent) == Some(t.spender),
        t.spender.agent != t.recipient.agent ==> party_of(t, t.recipient.agent) == Some(t.recipient),
        t.spender.agent != t.recipient.agent ==> other_party_of(t, t.spender.agent) == Some(t.recipient),
        t.spender.agent != t.recipient.agent ==> other_party_of(t, t.recipient.agent) == Some(t.spender),
{
}

/// Transactions chain: in the transaction that follows a party's previous
/// one, that party points at the previous transaction's hash, and the
/// balance the transaction leaves it with is the balance the party's next
/// transaction starts from.
pub proof fn lemma_transactions_chain(
    spender: Seq<u8>,
    recipient: Seq<u8>,
    spender_previous: Option<Seq<u8>>,
    recipient_previous: Option<Seq<u8>>,
    amount: u64,
    info: Seq<u8>,
    spender_balance: u64,
    recipient_balance: u64,
)
    ensures
        ({
            let t = next_transaction_spec(spender, recipient, spender_previous, recipient_previous, amount, info,
                spender_balance, recipient_balance);
            &&& party_of(t, spender) == Some(PartyView { agent: spender, previous: spender_previous, balance: spender_balance })
            &&& balance_after(spender, Some(t)) == Some(spender_balance)
            &&& spender != recipient ==> party_of(t, recipient) == Some(PartyView {
                agent: recipient,
                previous: recipient_previous,
                balance: recipient_balance,
            })
            &&& spender != recipient ==> balance_after(recipient, Some(t)) == Some(recipient_balance)
        }),
{
}

/// An agent that took part in none of its previous transactions' parties
/// cannot build on them: reading its balance fails exactly when the previous
/// transaction does not name it.
pub proof fn lemma_balance_needs_participation(agent: Seq<u8>, previous: TransactionView)
    ensures
        balance_after(agent, Some(previous)) is None <==> (previous.spender.agent != agent && previous.recipient.agent != agent),
{
}

/// The next transaction is built exactly when each previous transaction
/// names the party it precedes (the spender's names the spender, the
/// recipient's names the recipient, whoever else it was with); it is then
/// between the spender and the recipient, points each party at its own
/// previous transaction's hash, and carries the amount, the data and each
/// party's own resulting balance.
pub proof fn lemma_following_transaction(
    spender: Seq<u8>,
    recipient: Seq<u8>,
    spender_previous: Option<(Seq<u8>, TransactionView)>,
    recipient_previous: Option<(Seq<u8>, TransactionView)>,
    amount: u64,
    info: Seq<u8>,
    spender_balance: u64,
    recipient_balance: u64,
)
    ensures
        ({
            let r = following_transaction_spec(spender, recipient, spender_previous, recipient_previous,
                amount, info, spender_balance, recipient_balance);
            let names_spender = match spender_previous {
                None => true,
                Some(p) => p.1.spender.agent == spender || p.1.recipient.agent == spender,
            };
            let names_recipient = match recipient_previous {
                None => true,
                Some(p) => p.1.spender.agent == recipient || p.1.recipient.agent == recipient,
            };
            &&& (r is Ok <==> names_spender && names_recipient)
            &&& (r is Err ==> r == Err::<TransactionView, MutualCreditError>(MutualCreditError::AgentNotInTransaction))
            &&& (r matches Ok(t) ==> {
                &&& t.spender.agent == spender
                &&& t.recipient.agent == recipient
                &&& t.spender.previous == (match spender_previous { None => None, Some(p) => Some(p.0) })
                &&& t.recipient.previous == (match recipient_previous { None => None, Some(p) => Some(p.0) })
                &&& t.spender.balance == spender_balance
                &&& t.recipient.balance == recipient_balance
                &&& t.amount == amount
                &&& t.info == info
            })
        }),
{
}

/// The balance an agent starts a transaction from is zero without a
/// previous transaction, and otherwise the balance the previous
/// transaction left the party the agent played in it (the spender's when
/// the agent was the spender); an agent that played no party has none.
pub proof fn lemma_balance_after(agent: Seq<u8>, previous: Option<TransactionView>)
    ensures
        previous is None ==> balance_after(agent, previous) == Some(0u64),
        previous matches Some(t) ==> {
            &&& t.spender.agent == agent ==> balance_after(agent, previous) == Some(t.spender.balance)
            &&& t.spender.agent != agent && t.recipient.agent == agent ==> balance_after(agent, previous) == Some(t.recipient.balance)
            &&& t.spender.agent != agent && t.recipient.agent != agent ==> balance_after(agent, previous) is None
        },
{
}

/// The party an agent plays in a transaction is the spender when it is the
/// spender, else the recipient when it is the recipient, and none
/// otherwise; the other party is the one it does not play.
pub proof fn lemma_parties(t: TransactionView, agent: Seq<u8>)
    ensures
        party_of(t, agent) is Some <==> (t.spender.agent == agent || t.recipient.agent == agent),
        other_party_of(t, agent) is Some <==> (t.spender.agent == agent || t.recipient.agent == agent),
        t.spender.agent == agent ==> party_of(t, agent) == Some(t.spender) && other_party_of(t, agent) == Some(t.recipient),
        t.spender.agent != agent && t.recipient.agent == agent
            ==> party_of(t, agent) == Some(t.recipient) && other_party_of(t, agent) == Some(t.spender),
{
}

} // verus!
