//! Console command registry, payload construction and connection decisions
//! of a WebSocket heartbeat test server.

pub mod config;
pub mod json;
pub mod state;
pub mod text;
pub mod commands;
pub mod console;
pub mod connection;
