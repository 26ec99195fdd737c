//! Event-driven pub/sub client core for an instant-messaging platform.
//!
//! The crate models the pieces a chat client needs behind its command-line
//! surface: hierarchical topic matching, a subscription router, an event
//! dispatcher with ordered handler registration, a request/response
//! correlator with deadlines, a connection state machine with bounded
//! exponential backoff, and a facade composing them. All decision logic is
//! verified; I/O and terminal glue live outside the library and drive it
//! through plain values.

pub mod client;
pub mod commands;
pub mod config;
pub mod conn;
pub mod correlate;
pub mod dispatch;
pub mod errors;
pub mod repl;
pub mod router;
pub mod text;
pub mod topic;
