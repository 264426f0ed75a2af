//! Frame encoding, control-surface state and frame pacing for a small USB
//! bitmap display that mirrors the state of a DJ mixing application.

pub mod push2;
pub mod render;
pub mod timing;
pub mod traktor;
