//! Core of a small interactive line editor that mirrors the typed text in
//! uppercase and lowercase on the two rows below the input line.
//!
//! The crate holds the verified logic only: the session state machine
//! ([`session`]), the projection of a session onto terminal rows ([`render`]),
//! and the display command language ([`cmd`]). A driver owns the terminal: it
//! feeds key events in, executes the returned display commands, and queries
//! the terminal height afresh for every call.

pub mod casing;
pub mod cmd;
pub mod render;
pub mod session;
