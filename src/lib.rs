//! Live shell-pipeline preview: the verified core.
//!
//! The library holds the decisions of the program: how the edited input and
//! its cursor change, when the current input is run again by itself, how
//! output is cut into lines and batched, and how a finished run is recorded.
//! Threads, processes, terminals and files live with the caller.

pub mod aggregator;
pub mod clock;
pub mod execution;
pub mod history;
pub mod keys;
pub mod lines;
pub mod parser;
pub mod persistence;
pub mod reader;
pub mod text;
