//! The core of a client for the Old School RuneScape real-time prices
//! service: which request each query makes, how an answer is told from a
//! refusal, how item identifiers are decoded, and how timestamps are rounded
//! to the buckets of the averaging routes.
//!
//! The crate sends nothing itself. A program that owns an HTTP connection
//! takes a [`client::Request`] from a [`client::Client`], sends it, and asks
//! [`client::body_kind`] what the body of the answer holds.
//!
//! - [`client`]: worlds, time steps, requests and the outcome of a query.
//! - [`data_types`]: the item identifier and the records of the answers.
//! - [`decimal`]: integers as decimal text, read and written.
//! - [`utils`]: rounding a timestamp to the start of its bucket.

pub mod client;
pub mod data_types;
pub mod decimal;
pub mod utils;
