# lsp-index

A bridge that runs a headless LSP client (rust-analyzer, gopls, JDT LS, ...)
and offers its answers (definitions, references, hover, symbols, diagnostics)
as MCP tools, over stdio or HTTP.

The library under `src/` holds the bridge's logic with Verus contracts:

- `text`, `json`: character-level string operations and a JSON value with a
  mathematical view, on which the other contracts are stated.
- `lsp`: language detection (`registry`), message framing and header reading
  (`process`), client state and request parameters (`client`), LSP value
  helpers (`types`), JDT virtual URIs (`java_virtual_uri`), server downloads
  (`download`) and file-change handling (`watcher`).
- `mcp`: the protocol messages, the tool definitions, and how the stdio and
  HTTP servers route requests and render LSP answers as tool results.
- `search`: text-search bookkeeping and the hybrid search that merges LSP
  symbols with text matches.
- `bridge`, `utils`, `config`, `cli`, `gui`: snippets, URIs, configuration,
  command-line arguments, and the desktop front end's commands.

`app/` is the program around it: processes, sockets, files, the file watcher,
downloads, and the conversions between `serde_json` values and the library's.
