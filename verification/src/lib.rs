//! Client-side construction, signing and submission of ledger transactions.
//!
//! The crate derives program-owned addresses, encodes program instructions
//! into their wire layout, assembles and signs transactions, decides how a
//! submission proceeds after each answer of the network, and plans transfers
//! that empty an account. Everything here is in-memory computation; talking
//! to the network is left to the caller.

pub mod address;
pub mod base58;
pub mod encoding;
pub mod error;
pub mod instruction;
pub mod keys;
pub mod planner;
pub mod submission;
pub mod transaction;
pub mod wallet;
