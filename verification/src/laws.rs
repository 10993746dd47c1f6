//! What the engine promises as a whole: laws that hold of every input, stated over what
//! comes in and what goes out.
pub mod answers;
pub mod changes;
pub mod chat;
pub mod ground;
pub mod handlers;
pub mod moderation;
pub mod modules;
pub mod pipeline;
pub mod queries;
pub mod reading;
pub mod records;
pub mod settings;
pub mod storage;
pub mod tables;
pub mod terminal;
