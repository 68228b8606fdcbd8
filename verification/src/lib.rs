//! A governance ledger: balances, DAOs with time-bounded proposals that
//! accounts vote on, and a commit-reveal round that collects entropy.
//!
//! - `dao`: the ledger and its operations, each with its contract;
//! - `model`: the ledger as a mathematical state machine, over which the
//!   contracts are stated;
//! - `history`: what holds of every history of calls;
//! - `store`: the key-value store that holds the ledger's tables;
//! - `hash`: the commitment hash and the encoding of the value it binds;
//! - `account`, `types`: identities, amounts, records, notifications, errors.

pub mod account;
pub mod dao;
pub mod hash;
pub mod history;
pub mod model;
pub mod store;
pub mod types;
