//! The Yamux multiplexing session: frame codec, per-stream flow control and
//! session termination, driven by dispatched actions.

pub mod frame;
pub mod state;
pub mod actions;
pub mod reducer;
