//! Verified core of the AI Studio WebSocket proxy: the message protocol, the
//! authentication rules, the per-user connection pool with round-robin
//! balancing, and the decisions that turn proxied traffic into HTTP answers.

pub mod text;
pub mod auth;
pub mod json;
pub mod string_map;
pub mod message;
pub mod status;
pub mod connection;
pub mod headers;
pub mod proxy;
pub mod server;
