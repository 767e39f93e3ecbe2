//! Verified core of a config-driven MCP server that bridges any stdio-based LSP
//! language server to MCP clients.

pub mod config;
pub mod encoding;
pub mod json;
pub mod lsp;
pub mod mcp;
pub mod paths;
pub mod strings;
pub mod text;
