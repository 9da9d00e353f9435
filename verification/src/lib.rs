//! Verified core of majin: a real login shell on a pseudo terminal, served
//! to a browser over WebSocket or to a desktop window over local IPC.
//!
//! This crate holds the decisions: the wire types, incremental UTF-8
//! decoding of PTY output, token sign-in and session tracking, cookie
//! handling, WebSocket admission, the per-connection session loop, the
//! desktop window's terminal commands, asset routing and the start-up text.
//! Sockets, processes and the clock stay with the caller.
pub mod admission_laws;
pub mod assets;
pub mod auth;
pub mod auth_laws;
pub mod banner;
pub mod clock_laws;
pub mod config;
pub mod cookie;
pub mod crypto;
pub mod desktop;
pub mod gate;
pub mod keyed;
pub mod protocol;
pub mod pty;
pub mod routes;
pub mod session;
pub mod slots;
pub mod text;
pub mod utf8;
