//! The MCP side: the `lsp_*` tools.

pub mod server;
