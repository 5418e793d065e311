//! Handshake admission control and session lifecycle engine for a
//! WireGuard-style responder.

pub mod admission;
pub mod config;
pub mod cookie;
pub mod engine;
pub mod ip_history;
pub mod rate_limiter;
pub mod secret;
pub mod session;
pub mod session_table;
