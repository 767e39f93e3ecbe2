# lspranto

A config-driven [MCP](https://modelcontextprotocol.io/) server that bridges any
stdio-based [LSP](https://microsoft.github.io/language-server-protocol/) language
server to MCP clients. The logic is a library verified with
[Verus](https://github.com/verus-lang/verus); the program around it does the I/O.

## Layout

- `src/` is the library. Every function has a contract, and Verus proves it.
  - `config.rs`: the registry of language servers, and which one claims a file.
  - `paths.rs`, `strings.rs`, `encoding.rs`: Unix paths, text and UTF-8/UTF-16 offsets.
  - `json.rs`: JSON values, read and printed by `serde_json`.
  - `lsp/transport.rs`: `Content-Length` framing and JSON-RPC messages.
  - `lsp/messages.rs`: the messages that a client sends.
  - `lsp/reply.rs`: the responses of a server, decoded by `lsp_types`.
  - `lsp/uris.rs`: where the messages of the protocol hold URIs.
  - `lsp/client.rs`: a session: pending requests, open documents, diagnostics,
    capabilities, log.
  - `lsp/manager.rs`: file → (workspace, language) → client.
  - `lsp/text_edit.rs`, `lsp/edit.rs`: positions, text edits, and workspace edits
    as a run of disk actions.
  - `lsp/conv.rs`: `file:` URIs and paths.
  - `text.rs`: LSP results as text.
  - `mcp/server.rs`: the `lsp_*` tools.
- `tests/` runs the library, with the outside crates linked.
- `app/` is the program: command line, processes, files, TOML, and the MCP
  endpoint.

What the library takes from outside crates stands behind items whose doc comments
begin with the name of the outside function; their contracts are the only ones that
are believed rather than proved.

## Tools

All positions are 0-based `line:character`; the character counts UTF-16 code units.

| Tool | Description |
|------|-------------|
| `lsp_activate_workspace` | Activate a workspace directory. |
| `lsp_list_workspaces` | List active workspaces. |
| `lsp_deactivate_workspace` | Deactivate a workspace and shut down its server(s). |
| `lsp_get_server_logs` | Recent stderr output of the server(s), by default the last 100 lines. |
| `lsp_hover` | Type/documentation at a position. |
| `lsp_goto_definition` | Jump to a symbol's definition. |
| `lsp_find_references` | Find all references to a symbol. |
| `lsp_completion` | Completion items at a position. |
| `lsp_diagnostics` | Published diagnostics for a file. |
| `lsp_document_symbols` | The symbol tree of a file. |
| `lsp_workspace_symbols` | Search workspace symbols by query. |
| `lsp_raw_request` | Send any LSP request by method name. |
| `lsp_rename_symbol` | Compute the edits of a rename; `apply: true` writes them to disk. |
