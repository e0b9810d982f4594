# orbit-dtl

A deferred settlement ledger for multi-asset vaults, written in Verus.

- `src/` is the verified library. `model.rs` holds the mathematical model of a
  ledger (`LedgerView`) and, for every operation, what it does to that model;
  `ledger.rs` implements the operations on `Ledger` and proves each against its
  model. `invariants.rs` and `locks.rs` prove what the operations keep: every
  operation keeps the ledger linked (ids under their keys and below their
  counters, routes and intents pointing at what exists), every operation but a
  refused deposit keeps each vault's bookkeeping balanced, and every
  operation keeps each vault's lock equal to the inputs of the pending intents
  drawing on it, except a settlement refused after a vault changed; `laws.rs` states the properties that span
  several operations. The remaining modules hold the parts: amounts, ids,
  accounts, assets, the oracle, routes, intents, sessions, vaults, the risk
  engine, the audit log and the demo report.
- `tests/` runs the library on concrete values.
- `app/` is the `orbit-dtl` console: argument parsing, printing, and JSON
  output through serializable copies of the report types.
