//! A supervisor for named child processes.
//!
//! The library owns the bookkeeping of a process registry: which names are
//! taken, what each process has written to its output stream, how teardown
//! failures are aggregated, and how every operation on the registry answers.
//! The operating-system side (spawning, killing, waiting, and the blocking
//! pipe reads) is performed by the embedding program, which reports each
//! outcome back to the library as a plain value; every decision taken on
//! those outcomes is verified here.

pub mod config;
pub mod controller;
pub mod errors;
pub mod lines;
pub mod output;
pub mod registry;
pub mod script;
pub mod teardown;

pub use config::Config;
pub use errors::ProcError;
