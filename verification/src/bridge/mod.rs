//! Bridge between LSP answers and MCP tool results.

pub mod handlers;
pub mod snippet;
