//! Verified core of an HTTP load benchmarking tool: request sources,
//! request configuration, the benchmark scheduler's decisions and the
//! statistics reported at the end of a run.

pub mod bench;
pub mod cli;
pub mod config;
pub mod error;
pub mod http;
pub mod output;
pub mod source;
pub mod text;
