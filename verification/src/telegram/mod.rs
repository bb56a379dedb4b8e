//! The Telegram channel: rich text, security, commands and payloads.

pub mod channel_laws;
pub mod command;
pub mod copy;
pub mod flow;
pub mod list_laws;
pub mod markdown;
pub mod message;
pub mod packing_laws;
pub mod parse_laws;
pub mod parse_model;
pub mod payload;
pub mod render;
pub mod render_laws;
pub mod render_model;
pub mod rich;
pub mod security;
pub mod split;
pub mod split_laws;
pub mod split_model;
pub mod table_laws;
pub mod text_laws;
