//! A ledger for one fungible token.
//!
//! The ledger records what each account holds, keeps the total supply equal to
//! the sum of all balances, lets only its owner issue new supply, and records
//! how much storage one account's entry takes.
//!
//! - [`account`]: account identifiers and their grammar
//! - [`supply`]: the sum of all balances, and how writing an entry changes it
//! - [`store`]: the balance store
//! - [`storage`]: measuring the storage that one entry takes
//! - [`metadata`]: the descriptive fields of the token
//! - [`contract`]: the contract state with set-up, issuance and transfer
//! - [`state`]: the life of the contract, from no ledger to a ledger
//! - [`laws`]: what holds of the ledger whatever is asked of it

pub mod account;
pub mod contract;
pub mod laws;
pub mod metadata;
pub mod state;
pub mod storage;
pub mod store;
pub mod supply;
