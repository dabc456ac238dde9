//! Chord resolution engine of a global hotkey daemon.
//!
//! The engine matches a stream of key and button events against declared
//! chord expressions and decides, for every event, whether it is consumed or
//! handed back to the display server for normal delivery.

pub mod text;
pub mod display;
pub mod ast;
pub mod operators;
pub mod key_state;
pub mod transition;
pub mod binding;
pub mod executor;
pub mod history;
pub mod hot_key_daemon;
pub mod tools;
