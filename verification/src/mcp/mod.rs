//! MCP side of the bridge: protocol messages, tool definitions, and the
//! request handling of the stdio and HTTP servers.

pub mod protocol;
pub mod tools;
pub mod server;
pub mod http_server;

pub use tools::{McpContent, McpTool, McpToolResponse};
pub use server::McpServer;
