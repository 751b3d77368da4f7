//! Verified core of an emulated-input (EIS) bridge.
//!
//! The bridge terminates an emulated-input protocol connection coming from a
//! remote-desktop control plane, validates every request a peer sends, and
//! turns the valid ones into normalized injection calls for a host
//! compositor's input stack. This crate holds the parts worth proving:
//! connection admission control, the per-session protocol state machine,
//! device bind bookkeeping (including the keymap-before-resume ordering), and
//! the request translator with its bounds and sanity checks. Socket handling,
//! protocol framing, keymap compilation and the host's own injection
//! primitives live outside, in the embedding layer, which hands this crate
//! plain values and carries its decisions out.

pub mod admission;
pub mod geometry;
pub mod keymap;
pub mod manager;
pub mod session;
pub mod translate;
