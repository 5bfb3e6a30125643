//! A verified engine that projects infinite families of parallel, evenly
//! spaced lines onto a rectangular viewport, producing the exact line
//! segments a vector drawing needs.
//!
//! All geometry is carried out over exact scaled integers: coordinates and
//! angles are micro-units (one unit is 1,000,000 micro-units), and every
//! emitted endpoint is an exact rational number, a numerator over a common
//! per-grid denominator.  The caller converts to and from its own numeric
//! representation at the boundary.

pub mod arith;
pub mod assemble;
pub mod geometry;
