//! A shared-expense ledger: users form groups, and every transaction between
//! two members of a group keeps the pairwise balances of that group mirrored.
//!
//! The ledger is four relations (groups, memberships, balances, transactions)
//! behind a store that answers one statement at a time. A request is a unit
//! of work: it asks the store for one statement after another, takes each
//! answer, and ends by having everything it wrote kept or undone.
//!
//! - `store` says what the relations are and what each statement does to
//!   them, and keeps them in memory.
//! - `protocol` holds the statements, the answers, and the steps of a unit of
//!   work.
//! - `logic`, `transactions`, `groups` and `users` hold the units of work, and
//!   run them on the store in memory.
//! - `laws` states what holds of every ledger that the units of work can
//!   reach.
//! - `commons` and `hasher` read ids and make and check password hashes with
//!   the crates that are made for it.

pub mod commons;
pub mod dto;
pub mod error;
pub mod groups;
pub mod hasher;
pub mod laws;
pub mod logic;
pub mod protocol;
pub mod store;
pub mod transactions;
pub mod users;
