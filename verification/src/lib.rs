//! Reachability-graph engine for a 2D platformer level editor.
//!
//! Users drag and resize rectangular platforms; the engine maintains a
//! directed graph of jump-connectivity edges between level elements,
//! decided by a closed-form ballistic trajectory feasibility test under
//! fixed gravity.  The windowing, rendering and mouse plumbing around it
//! are plain display concerns and live outside this library.

pub mod geometry;
pub mod solver;
pub mod graph;
pub mod drag;
