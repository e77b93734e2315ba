# mutual_credit

A mutual-credit application for Holochain: agents exchange credits through
countersigned transactions, each of which links both parties to their
previous transaction and records their resulting balances. A transaction
starts as a transaction request that one agent creates and the other
accepts; accepting runs a countersigning session between the two agents.

## Layout

- `src/` is the verified library (Verus). It holds the decisions of the
  application over plain values: requests and intents, the parties of a
  transaction, the checks of a chain's activity and of a counterparty's
  preflight response, the links a clean-up removes or replaces, the map of
  transactions read from a chain, the preflight request and session data
  built with Holochain's integrity types, and the three countersigning
  sessions as state machines (`request_session`, `transaction_session`,
  `responder`) together with the laws they keep.
- `tests/` runs the library on concrete values.
- `app/` is the Holochain zome: entry and link types, host calls, signals,
  and the loops that perform the actions the sessions ask for. Balances are
  floating-point numbers and are computed there.
