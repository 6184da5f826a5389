//! Messaging between the live Grok sessions of one machine, and the Cursor client
//! mode of a session, verified.
//!
//! Everything here is a function of its arguments: what has to be read, written,
//! spawned or awaited is handed in as a value or as a callback.

pub mod app_view;
pub mod auth;
pub mod bridge;
pub mod client;
pub mod clock;
pub mod cursor_client;
pub mod discover;
pub mod dispatch;
pub mod error;
pub mod handshake;
pub mod inbox;
pub mod json;
pub mod mcp;
pub mod naming;
pub mod paths;
pub mod peers_mcp;
pub mod registry;
pub mod replies;
pub mod selftest;
pub mod send;
pub mod seqs;
pub mod session;
pub mod slash;
pub mod stamp;
pub mod stdio;
pub mod text;
pub mod tools;
pub mod transport;
