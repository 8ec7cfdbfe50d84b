//! A provider of chain data that believes nothing its API says without proof.
//!
//! The decisions of the provider stand here: which question a request asks next, what is wrong with
//! a reply, and what has to be proved before anything is returned.

pub mod account_laws;
pub mod accounts;
pub mod block_lookup;
pub mod error;
pub mod get_logs;
pub mod keyed_map;
pub mod laws;
pub mod log_checks;
pub mod log_laws;
pub mod map_laws;
pub mod primitives;
pub mod provider;
pub mod receipts;
pub mod request_laws;
pub mod rlp;
pub mod sequences;
pub mod transactions;
pub mod types;
