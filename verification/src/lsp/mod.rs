//! The language-server side: messages, sessions, routing and edits.

pub mod client;
pub mod conv;
pub mod edit;
pub mod manager;
pub mod messages;
pub mod reply;
pub mod text_edit;
pub mod transport;
pub mod types;
pub mod uris;
