//! An in-memory order store: orders are created with a fresh identifier,
//! fetched, listed, given a new status, and deleted. Every operation's
//! effect on the store is stated in its contract.

pub mod order;
pub mod shared;
pub mod store;
