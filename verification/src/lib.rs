//! Command-execution aggregator: the verified decisions behind the `rexec` host,
//! its command-line client and its tool server.

pub mod cli;
pub mod client;
pub mod clock;
pub mod command;
pub mod connection;
pub mod console;
pub mod encoding;
pub mod environment;
pub mod filter;
pub mod host;
pub mod journal;
pub mod json;
pub mod lists;
pub mod mcp;
pub mod output;
pub mod paths;
pub mod pool;
pub mod protocol;
pub mod pty_exec;
pub mod render;
pub mod service;
pub mod session;
pub mod shell;
pub mod socket;
pub mod text;
pub mod transcript;
