//! Continuous (swept) collision detection between a moving circle and
//! axis-aligned rectangles, over exact integer and rational arithmetic.
//!
//! A moving body's trajectory over one simulation step is a straight line;
//! the library computes the earliest time of impact against each edge of a
//! rectangle, selects the earliest valid candidate, and reports which side
//! was struck, so that the caller can advance the body and reflect its
//! velocity. Coordinates are bounded integers (the caller picks the unit);
//! times of impact are exact rationals, so corner hits and ties are decided
//! deterministically rather than by floating-point rounding.

pub mod collide;
pub mod geom;
pub mod json_plugin;
pub mod laws;
pub mod step;
pub mod sweep;
pub mod toi;
