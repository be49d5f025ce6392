//! A small Newtonian n-body engine over fixed-point coordinates.
//!
//! The engine advances a set of massive bodies under mutual gravitational
//! attraction, keeps a bounded trail of recent positions per body, samples the
//! acceleration field over a grid for visualization, and runs the small state
//! machine that decides when a body is driven by physics and when by the
//! pointer. All quantities are scaled integers (see `fixed`), so every
//! computation has an exact arithmetic meaning that the contracts state.
//!
//! The force law uses additive softening: `ETA` is added to the separation
//! before squaring, which bounds the acceleration as two bodies approach.
//! A pair at exactly the same position contributes zero acceleration, the
//! explicit fallback for the one separation the softened direction cannot
//! define.

pub mod body;
pub mod control;
pub mod field;
pub mod fixed;
pub mod gravity;
pub mod motion;
pub mod trail;
pub mod vector;
