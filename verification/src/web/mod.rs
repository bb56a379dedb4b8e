//! The web channel: its interface, its streams and its state.

pub mod attachment_laws;
pub mod attachments;
pub mod chat_copy;
pub mod control;
pub mod conversations;
pub mod event_laws;
pub mod files;
pub mod frame;
pub mod history;
pub mod http;
pub mod ids;
pub mod input_laws;
pub mod intake_laws;
pub mod lists;
pub mod live;
pub mod live_laws;
pub mod live_model;
pub mod log_laws;
pub mod main_state;
pub mod message_laws;
pub mod messages;
pub mod protocol;
pub mod request_laws;
pub mod routes;
pub mod selection;
pub mod session_book;
pub mod session_terminal;
pub mod single_session;
pub mod state;
pub mod summary;
pub mod terminal_stream;
pub mod url;
pub mod view_laws;
pub mod workspace;
