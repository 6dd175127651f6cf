//! Request handling of the HTTP server (StreamableHTTP mode).
//!
//! The HTTP server speaks the same JSON-RPC messages as the stdio server,
//! offers the same tools and answers them alike.

use vstd::prelude::*;
use crate::json::JsonValue;
use crate::mcp::protocol::{McpError, McpRequest, McpResponse};
use crate::mcp::server::{RequestStep, render_symbols, request_step, route_request, symbols_fit, symbols_text, text_content};

verus! {

/// An MCP request received over HTTP.
pub type McpHttpRequest = McpRequest;

/// An MCP response sent over HTTP.
pub type McpHttpResponse = McpResponse;

/// An MCP error sent over HTTP.
pub type McpHttpError = McpError;

/// What the HTTP server does with a request: answer `initialize`,
/// `initialized` and `tools/list` at once, run the tool of a `tools/call`, and
/// refuse any other method with "Method not found" (-32601).
pub fn handle_mcp_request(name: &str, version: &str, request: &McpHttpRequest) -> (step: RequestStep)
    ensures
        request_step(name@, version@, *request, step),
{
    route_request(name, version, request)
}

/// Render a workspace-symbols answer, as the stdio server does.
pub fn parse_symbols_result(result: &JsonValue) -> (r: Result<JsonValue, String>)
    requires
        symbols_fit(result@),
    ensures
        r matches Ok(v) && v@ == text_content(symbols_text(result@)),
{
    Ok(render_symbols(result))
}

} // verus!
