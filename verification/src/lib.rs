//! Trading engine of an exchange: per-asset order books with price-time
//! priority matching, the sequential engine that owns them, and the
//! reserve/revert protocol that callers run around a submission.

pub mod asset;
pub mod order;
pub mod side;
pub mod lifecycle;
pub mod matching;
pub mod book;
pub mod engine;
pub mod channel;
pub mod config;
pub mod driver;
pub mod reservation;
pub mod slot;
pub mod text;
pub mod web;
