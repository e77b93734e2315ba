//! The ways in which the application's decisions refuse.
use vstd::prelude::*;

verus! {

/// Why an operation of the mutual-credit application did not succeed.
#[derive(PartialEq, Eq, Structural, Clone, Copy, Debug)]
pub enum MutualCreditError {
    /// A transaction request (or intent) addressed to its own author.
    SelfTransactionRequest,
    /// The calling agent is neither the spender nor the recipient.
    NotAParticipant,
    /// The agent is neither party of the transaction.
    AgentNotInTransaction,
    /// The agent activity reports no highest observed action.
    HighestObservedMissing,
    /// The agent activity reports more than one action at the highest position.
    HighestObservedNotUnique,
    /// The highest observed action is not the expected chain top.
    BadHighestObserved,
    /// The transaction a party builds on is not its latest one.
    TransactionNotTheLatest,
    /// The agent index of a preflight response names no signing agent.
    MalformedPreflightResponse,
    /// Holochain refused to build the preflight request of a session.
    InvalidPreflightRequest,
    /// A countersigned entry was to be written without any response.
    MissingPreflightResponse,
    /// A hash that should name an action names something else.
    NotAnActionHash,
    /// The local chain holds no action.
    ChainEmpty,
    /// The local chain moved past the expected chain top.
    ChainMoved,
    /// A transaction record holds an entry that is not countersigned.
    MalformedEntry,
    /// A transaction record holds no entry.
    MalformedTransaction,
    /// The bytes of a transaction could not be read as a transaction.
    TransactionDecodeFailed,
    /// A transaction request record holds no transaction request.
    MalformedTransactionRequest,
    /// The latest transaction of an agent could not be fetched.
    LatestTransactionMissing,
    /// The counterparty refused the pre-transaction check.
    PreTransactionCheckFailed,
    /// The counterparty refused the transaction preflight.
    TransactionPreflightFailed,
    /// The host did not lock the local chain for the session.
    OwnChainLockFailed,
    /// The counterparty refused to create its side of the transaction.
    RequestCreateTransactionFailed,
    /// The counterparty's chain moved during the session.
    CounterpartyChainMoved,
    /// A host call or a zome call failed.
    HostCallFailed,
    /// An event arrived that the session was not waiting for.
    UnexpectedEvent,
}

} // verus!
