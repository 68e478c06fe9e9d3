//! Decision logic of a serverless control plane: the bounded log store, the
//! metrics it exposes and the repositories that hold its ledger.
//!
//! Every item here is pure: rows, clocks and outside results come in as plain
//! values, and what has to be written goes out as plain values.

pub mod domain;
pub mod listing;
pub mod logs;
pub mod metrics;
pub mod repository;
pub mod table;
pub mod text;
pub mod time;
