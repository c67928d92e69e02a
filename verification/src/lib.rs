//! A grep-like literal-substring line search library.
//!
//! The library holds the verified core of the tool: matchers (case-sensitive
//! and case-insensitive), the line search engine with 1-based line numbering,
//! the output formatter, and the orchestration over a list of input sources.
//! Reading files or standard input, and argument parsing, live outside the
//! library and hand it plain values.

pub mod app;
pub mod cli;
pub mod errors;
pub mod io;
pub mod search;
pub mod text;

pub use cli::{CliAction, Config};
pub use errors::{ExitCode, RgrepError};
