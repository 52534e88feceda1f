//! Verified core of a command-line chat client and its session server:
//! the session store, the request handlers, the command interpreter,
//! the line editor with command completion and the client-side session
//! bookkeeping. Network, terminal and disk access live with the caller.

pub mod commands;
pub mod config;
pub mod db;
pub mod db_laws;
pub mod error;
pub mod handlers;
pub mod http_utils;
pub mod input;
pub mod repl;
pub mod search;
pub mod sessions;
pub mod terminal;
pub mod text;
pub mod types;
