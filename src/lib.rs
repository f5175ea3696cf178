//! A pane-management server for a terminal multiplexer, spoken to over
//! line-delimited JSON-RPC.
//!
//! The library holds the pane registry, the engine that drives the external
//! multiplexer through an injectable command executor, the protocol state
//! machine and the tool dispatcher. Every item is verified against its
//! contract; process plumbing (stdio, the real executor, audit files) lives
//! in the binary around it.

pub mod text;
pub mod panes;
pub mod parse;
pub mod tmux;
pub mod mcp;
pub mod audit;
pub mod server;
