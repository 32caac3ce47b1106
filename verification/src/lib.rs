//! Extracts the contiguous slice of a chronologically ordered log whose
//! per-line timestamps fall within a caller-supplied inclusive window.
//!
//! The crate is organised leaf-first: `temporal` holds the date/time value
//! model with its three-way comparison, `parse` the fixed-width token
//! parsers and the boundary-format detector, and `scan` the streaming
//! state machine that decides which lines are emitted.

pub mod parse;
pub mod scan;
pub mod temporal;
