//! LSP-to-MCP bridge: the logic that turns LSP answers into MCP tool results,
//! language detection, URI handling and search bookkeeping, with contracts.

pub mod text;
pub mod json;
pub mod config;
pub mod utils;
pub mod lsp;
pub mod bridge;
pub mod mcp;
pub mod search;
pub mod gui;
pub mod cli;

pub use config::Config;
pub use lsp::{LspClient, LspRegistry};
pub use mcp::McpServer;
pub use search::{SearchOptions, TextMatch};
