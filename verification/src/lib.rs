//! Cockatiel: a chat engine that modules connect to.
//!
//! Adapters bring messages in, pre-process, in-process and post-process modules work on
//! them in turn, and displays show them. The engine lets modules in, keeps them apart,
//! routes what they send and keeps the timeline. This crate holds its rules, as functions
//! from plain values to plain values; sockets, files, databases and terminals are outside.
//!
//! - The way of a message: [`pipeline`], [`orchestrator`], [`command_registry`],
//!   [`chat_commands`], [`handlers`].
//! - Modules: [`connection`], [`auth`], [`trust`], [`prompts`], [`liveness`],
//!   [`module_manager`], [`module_registry`], [`module_list`], [`module_client`].
//! - Queries: [`queries`], [`user_queries`], [`user_db_client`], [`sql`].
//! - What is kept: [`database`], [`writes`], [`timeline_database`], [`user_database`],
//!   [`user_store`], [`conduct`], [`config`], [`credentials`], [`env_file`],
//!   [`engine_state`], [`tls`].
//! - Terminals: [`tui`], [`user_view`], [`panes`], [`keymap`], [`help`].
//! - Ground: [`proto`], [`json`], [`text`], [`strmap`], [`random`], [`clock`].
//! - What holds of all of it: [`laws`].
pub mod auth;
pub mod chat_commands;
pub mod clock;
pub mod command_registry;
pub mod conduct;
pub mod config;
pub mod connection;
pub mod credentials;
pub mod database;
pub mod engine_state;
pub mod env_file;
pub mod handlers;
pub mod help;
pub mod json;
pub mod keymap;
pub mod laws;
pub mod liveness;
pub mod module_client;
pub mod module_list;
pub mod module_manager;
pub mod module_registry;
pub mod orchestrator;
pub mod panes;
pub mod pipeline;
pub mod prompts;
pub mod proto;
pub mod queries;
pub mod random;
pub mod sql;
pub mod strmap;
pub mod text;
pub mod timeline_database;
pub mod tls;
pub mod trust;
pub mod tui;
pub mod user_database;
pub mod user_db_client;
pub mod user_queries;
pub mod user_store;
pub mod user_view;
pub mod writes;
