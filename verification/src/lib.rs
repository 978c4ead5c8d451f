//! A durable store of URL redirects, kept free of input and output.
//!
//! The store is an append-only index of records that mirrors a line-oriented
//! log. Every function here works on plain text and plain values: the caller
//! reads and writes the files and reports back whether a write reached them.

pub mod text;
pub mod base36;
pub mod target;
pub mod token;
pub mod record;
pub mod index;
pub mod log;
pub mod journal;
pub mod store;
pub mod recovery;
pub mod history;
pub mod service;
pub mod registration;
pub mod pool;
