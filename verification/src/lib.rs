//! Record-management core for uniquely identified, owned digital assets.
//!
//! The crate keeps a collection of token records, each owned by an identity
//! and carrying a consumption-unit payload. A secondary index keyed by
//! `(owner, token id)` mirrors the primary store so that the tokens of one
//! owner can be listed without a full scan, and a counter tracks the number
//! of live records. Mutations (mint, burn, tier update) are role- and
//! owner-gated and keep the three structures consistent; reads are pure
//! projections with cursor-based pagination.
//!
//! The host environment (transactional key-value storage, address-format
//! validation, message decoding) stays outside this crate: every operation
//! here is a synchronous transformation of an explicitly passed state value.

pub mod contract;
pub mod digits;
pub mod error;
pub mod execute;
pub mod laws;
pub mod lex;
pub mod model;
pub mod msg;
pub mod query;
pub mod response;
pub mod state;
pub mod traits;
pub mod types;
