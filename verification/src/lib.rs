//! Verified core of a mining pool for the ORE proof-of-work token.
//!
//! The pool operator collects candidate solutions from its members, keeps the
//! best one for the current challenge, and submits it on chain.  This crate
//! holds the decisions and byte formats of that process, each with a contract.

pub mod aggregator;
pub mod bytes;
pub mod drill;
pub mod instruction;
pub mod miner;
pub mod operator;
pub mod state;
pub mod types;
pub mod validate;
