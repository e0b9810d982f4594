//! Deferred settlement ledger for multi-asset vaults: registered assets,
//! accounts, vaults, oracle prices, routes between vaults, transfer intents,
//! settlement sessions with counterflow, and risk limits, with the audit log
//! of what happened. The behaviour of every operation is stated over the
//! mathematical model of the ledger and proved by Verus.

pub mod accounts;
pub mod amount;
pub mod asset;
pub mod error;
pub mod events;
pub mod ids;
pub mod invariants;
pub mod laws;
pub mod ledger;
pub mod locks;
pub mod model;
pub mod operation_laws;
pub mod oracle;
pub mod orders;
pub mod report;
pub mod risk;
pub mod routes;
pub mod session;
pub mod vault;
