//! Registry and query core of an auction factory.
//!
//! The registry tracks auctions created by a separate auction-execution
//! component.  It keeps the set of live auctions, per-address ownership and
//! participation indices, an append-only ledger of closed auctions with an
//! offset-free pagination cursor, and viewing keys that gate the
//! ownership queries.

pub mod active;
pub mod closed;
pub mod dispatch;
pub mod error;
pub mod factory;
pub mod keys;
pub mod msg;
pub mod order;
pub mod query;
pub mod symbols;
