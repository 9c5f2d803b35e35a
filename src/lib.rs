//! Vaults that hold unique assets of one origin and issue fungible shares
//! against them, and the registry that creates and indexes those vaults.
//!
//! Every operation here is a step of a state machine: it takes the state and
//! the facts of its call (who calls, which account runs it), changes the state
//! and returns the requests that the host must send to other components.
pub mod account;
pub mod ledger;
pub mod metadata;
pub mod naming;
pub mod registry;
pub mod vault;
