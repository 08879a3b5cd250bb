//! A ledger-style record store: registered institutes issue certificates to
//! user addresses, and read-only queries answer issuance counts and lookups
//! by certificate hash or by user.
//!
//! The store is a single aggregate. Every mutation is a transform that either
//! produces the fully updated store or an error with the store untouched; the
//! host that persists the store and converts addresses drives these
//! transforms one at a time.

pub mod addr;
pub mod contract;
pub mod laws;
pub mod msg;
pub mod state;
pub mod str_map;
