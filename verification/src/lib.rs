//! Session verifier cache for a block-header verification pipeline.
//!
//! A chain's authority set changes at fixed-length session boundaries. Verifying
//! a header needs the verifier (and the round-robin authority list) of the
//! session that produced it. This crate keeps a bounded, monotonically advancing
//! window of per-session verifier data, populates missing entries lazily from an
//! authority source, and rejects requests outside the window with a precise
//! reason instead of serving stale data. It also holds the decision logic of a
//! small on-chain pallet that records file events with fixed-width fields.

pub mod authorities;
pub mod cache;
pub mod events;
pub mod session;
