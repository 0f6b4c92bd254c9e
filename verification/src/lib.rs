//! heydm: a verified core for a minimal desktop compositor.
//!
//! The library owns the compositor's state and decisions: the window
//! registry with its focus stack and grab state machine, the input
//! router, the status panel and application launcher overlays, and the
//! deterministic render pass that turns a state snapshot into an ordered
//! list of draw commands.  Backend plumbing (protocol sockets, GPU
//! submission, filesystem probes) stays outside and talks to the library
//! in plain values.

pub mod desktop;
pub mod geometry;
pub mod input;
pub mod launcher;
pub mod panel;
pub mod render;
pub mod state;
pub mod text;
pub mod window;
