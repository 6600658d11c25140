//! A persistent listing/booking ledger.
//!
//! Parties register rentable listings in an append-only registry, other
//! parties confirm (book) a listing for a time window, and each party's
//! confirmations are readable only with that party's viewing credential.
//! All state lives in an explicitly passed [`contract::Ledger`] value; the
//! host shell that persists it and decodes wire messages stays outside.

pub mod contract;
pub mod credentials;
pub mod errors;
pub mod idgen;
pub mod laws;
pub mod log;
pub mod msg;
pub mod pagination;
pub mod state;
pub mod store;
