//! What the engine does with each kind of payload, one handler a kind.
pub mod auth_new;
pub mod ban;
pub mod command;
pub mod commands;
pub mod connection_request;
pub mod err;
pub mod message_inprocess;
pub mod message_postprocess;
pub mod message_preprocess;
pub mod shutdown;
pub mod timeline_event;
pub mod user_styling_data;
