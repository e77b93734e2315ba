//! Verified core of a mutual-credit application for Holochain.
//!
//! Agents exchange credits through countersigned transactions. Every
//! transaction names a spender and a recipient, links each of them to the
//! previous transaction of their own chain, and records their resulting
//! balances. A transaction starts as a transaction request that one agent
//! creates and the other accepts; accepting runs a countersigning session
//! between the two agents.
//!
//! This crate holds the decisions of that application as verified functions
//! over plain values: who the counterparty of a request is, which party of a
//! transaction an agent is, when a chain is still where a session expects it,
//! which links a clean-up removes, how the records of a chain become a map of
//! transactions, which transaction settles a request, and the countersigning
//! sessions themselves as state machines whose host actions (zome calls,
//! chain writes, network reads) are performed by the caller. The preflight
//! request that opens a session, the session data written with its entry and
//! the serialized request hash a settling transaction carries are built by
//! Holochain's own types, called from here.
use vstd::prelude::*;

pub mod hashes;
pub mod error;
pub mod transaction;
pub mod request;
pub mod activity;
pub mod links;
pub mod announce;
pub mod order;
pub mod records;
pub mod preflight;
pub mod countersigning;
pub mod settlement;
pub mod request_session;
pub mod transaction_session;
pub mod responder;
