//! Re-chunks a numbered series of acquisition runs into output files of even
//! byte size, keeping the provenance of every event.
//!
//! The crate holds the decisions: where each run file lives, which schema a
//! file follows, which event comes next, when an output file is full, and how
//! scaler records are gathered. The container files themselves are read and
//! written by the caller, which hands plain values to these state machines.
pub mod config;
pub mod error;
pub mod event;
pub mod gaps;
pub mod naming;
pub mod reader;
pub mod scalers;
pub mod scan;
pub mod version;
pub mod writer;
