//! A local replica of an exchange limit order book for one instrument.
//!
//! The book is rebuilt from a full snapshot and then kept current by a stream
//! of incremental updates. At any moment it can be asked for the best bid and
//! the best ask.

pub mod book;
pub mod laws;
pub mod ledger;
pub mod level;
pub mod record;
pub mod subscription;
