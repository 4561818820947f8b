//! Builds geth-style traces from the recorded call tree of one transaction.
//!
//! A [`GethTraceBuilder`] holds the call tree and gives three traces of it:
//! the step log, the call frame tree, and the prestate or its diff.

pub mod builder;
pub mod call_frame;
pub mod call_frame_laws;
pub mod call_tree;
pub mod ordered_map;
pub mod prestate;
pub mod prestate_laws;
pub mod primitives;
pub mod struct_log;

pub use builder::GethTraceBuilder;
