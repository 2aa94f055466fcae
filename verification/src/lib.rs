//! Server-side core of a broadcast chat service.
//!
//! The library holds the verified logic of the service: the length-prefixed
//! frame codec, the fixed-window rate limiter, the shared registry of display
//! names, a bounded broadcast bus with per-subscriber cursors, the
//! per-connection state machine that reacts to decoded frames, bus deliveries
//! and administrative commands, and the parser for the administrative command
//! line. Socket and console I/O, and the async event loop that races the three
//! event sources of a connection, live outside the library and feed it plain
//! values.

pub mod bus;
pub mod connection;
pub mod input;
pub mod message;
pub mod rate_limiter;
pub mod registry;
pub mod server;
