//! Tool call handlers: the answers that name each LSP request a tool maps to.

use vstd::prelude::*;
use crate::json::{Json, JsonValue, arg_bool, arg_str, arg_u64};
use crate::mcp::tools::{McpContent, McpToolResponse};
use crate::text::{concat, decimal, decimal_string};

verus! {

/// `true` or `false` as text.
pub open spec fn bool_text(b: bool) -> Seq<char> {
    if b { "true"@ } else { "false"@ }
}

/// `file:line:character` of a tool's position arguments.
pub open spec fn position_text(args: Json) -> Seq<char> {
    arg_str(args, "file_path"@) + ":"@ + decimal(arg_u64(args, "line"@, 0) as u32 as nat) + ":"@
        + decimal(arg_u64(args, "character"@, 0) as u32 as nat)
}

/// The text and error flag of the answer to a tool call.
pub open spec fn handler_answer(tool_name: Seq<char>, args: Json) -> (Seq<char>, Option<bool>) {
    if tool_name == "lsp_goto_definition"@ {
        ("goto_definition: "@ + position_text(args) + " (all="@ + bool_text(arg_bool(args, "all_implementations"@, false)) + ")"@, None)
    } else if tool_name == "lsp_find_references"@ {
        ("find_references: "@ + position_text(args), None)
    } else if tool_name == "lsp_hover"@ {
        ("hover: "@ + position_text(args), None)
    } else if tool_name == "lsp_workspace_symbols"@ {
        ("workspace_symbols: "@ + arg_str(args, "query"@), None)
    } else if tool_name == "lsp_get_diagnostics"@ {
        ("diagnostics: "@ + arg_str(args, "file_path"@), None)
    } else {
        ("Unknown tool: "@ + tool_name, Some(true))
    }
}

/// `file:line:character` of a call's position arguments.
fn position_of(arguments: &JsonValue) -> (r: String)
    ensures
        r@ == position_text(arguments@),
{
    let file_path = arguments.str_arg("file_path");
    let line = arguments.u64_arg("line", 0) as u32;
    let character = arguments.u64_arg("character", 0) as u32;
    let a = concat(file_path, ":");
    let l = decimal_string(line as u64);
    let b = concat(a.as_str(), l.as_str());
    let c = concat(b.as_str(), ":");
    let ch = decimal_string(character as u64);
    concat(c.as_str(), ch.as_str())
}

/// Handle an MCP tool call: a text naming the request and its arguments, or an
/// error answer for an unknown tool.
pub fn handle_tool_call(tool_name: &str, arguments: &JsonValue) -> (r: Result<McpToolResponse, String>)
    ensures
        match r {
            Ok(resp) => resp.content@.len() == 1
                && resp.content@[0] == McpContent::Text { text: resp.content@[0]->text }
                && (resp.content@[0]->text)@ == handler_answer(tool_name@, arguments@).0
                && resp.is_error == handler_answer(tool_name@, arguments@).1,
            Err(_) => false,
        },
{
    let text: String;
    let mut is_error: Option<bool> = None;
    if crate::text::str_eq(tool_name, "lsp_goto_definition") {
        let all = arguments.bool_arg("all_implementations", false);
        let p = position_of(arguments);
        let a = concat("goto_definition: ", p.as_str());
        let b = concat(a.as_str(), " (all=");
        let c = concat(b.as_str(), if all { "true" } else { "false" });
        text = concat(c.as_str(), ")");
    } else if crate::text::str_eq(tool_name, "lsp_find_references") {
        let p = position_of(arguments);
        text = concat("find_references: ", p.as_str());
    } else if crate::text::str_eq(tool_name, "lsp_hover") {
        let p = position_of(arguments);
        text = concat("hover: ", p.as_str());
    } else if crate::text::str_eq(tool_name, "lsp_workspace_symbols") {
        text = concat("workspace_symbols: ", arguments.str_arg("query"));
    } else if crate::text::str_eq(tool_name, "lsp_get_diagnostics") {
        text = concat("diagnostics: ", arguments.str_arg("file_path"));
    } else {
        text = concat("Unknown tool: ", tool_name);
        is_error = Some(true);
    }
    let mut content: Vec<McpContent> = Vec::new();
    content.push(McpContent::Text { text });
    Ok(McpToolResponse { content, is_error })
}

} // verus!
