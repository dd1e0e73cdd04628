//! Verified core of the eBPF_tracker command line: argument handling, runtime
//! selection, dataset analysis helpers and the decisions of the live
//! intelligence worker.

pub mod text;
pub mod analysis;
pub mod json;
pub mod chat;
pub mod number;
pub mod intelligence;
pub mod worker;
pub mod runtime;
pub mod compose;
pub mod shell;
pub mod dashboard;
