//! Core of a macOS keep-awake utility: a session state machine that tracks at
//! most one OS power-management assertion (its handle, mode and optional
//! expiry), the interpretation of the native create/release call outcomes, and
//! parsers for the text output of the system power-configuration tool.
//!
//! The surrounding shell performs the native calls and the tool invocations;
//! everything here works on plain values and is verified.

pub mod commands;
pub mod power;
pub mod state;
pub mod text;
