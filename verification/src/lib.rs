//! Detection of code injected into a running Java Virtual Machine on Linux.
//!
//! The crate holds the two decision cores of the detector: choosing the
//! process to inspect among everything the host is running, and walking a
//! traced process's memory map in search of known byte signatures. All
//! system access (listing processes, tracing, reading memory) is left to
//! the caller, which feeds plain values in and acts on what comes back.

pub mod maps;
pub mod model;
pub mod run;
pub mod scanner;
pub mod search;
pub mod select;
pub mod signature;
pub mod text;
