//! A library for reconstructing structured log records from a line-oriented
//! device log stream, filtering them through a fixed chain of predicates,
//! and rendering the survivors for terminal or file output.

pub mod chain;
pub mod filter;
pub mod laws;
pub mod log;
pub mod parse;
pub mod pids;
pub mod sink;
pub mod source;
pub mod text;

pub use filter::Filter;
pub use log::{Level, Log};
pub use sink::Sink;
