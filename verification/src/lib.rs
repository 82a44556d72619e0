//! The verified core of goose's terminal interface: text layout, inline and
//! block markdown, the chat input line, the list views, the key and message
//! handling of the application, and the command loop of the agent client.

pub mod text;
pub mod chat;
pub mod theme;
pub mod markdown;
pub mod acp;
pub mod views;
pub mod app;
pub mod layout;
