//! Read-only decoder for the on-disk "v9" segment format of a time-series
//! columnar store.
//!
//! The crate is a stack of byte-level parsers: a packed archive index, an
//! offset-indexed container, compressed columnar block sets and packed
//! integer streams, composed into typed column readers and a segment facade.
//! Every parser works on borrowed bytes and states in its contract which
//! inputs it accepts and what it returns for them.

pub mod byte_order;
pub mod calendar;
pub mod column;
pub mod compression;
pub mod error;
pub mod json;
pub mod segment;
