//! Core of a command-line HTTP load generator: request descriptors, header
//! parsing, script expansion, outcome classification, and the aggregate
//! run-state that tallies results.
//!
//! The surrounding binary supplies what cannot be reasoned about here —
//! command-line parsing, file reading, the worker threads, and the HTTP
//! calls themselves — and hands this library plain values.

pub mod client;
pub mod config;
pub mod errors;
pub mod state;
pub mod strings;
mod sys;
pub mod threadpool;
