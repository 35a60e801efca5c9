//! Tessellation core for an interactive 2D vector-sketch canvas.
//!
//! A user sketches polygonal paths by clicking points; the canvas shows a
//! tracking cursor disc, lets paths be closed and filled, and deletes the
//! most recent path.  This crate holds the verified heart of that canvas:
//! the path model, the geometry primitives (disc fans and stroke quads),
//! the tessellation engine that turns paths into a single vertex/index
//! stream, the growth policy for the GPU-visible buffers, and the split of
//! the index stream into per-frame draw ranges.
//!
//! Coordinates are fixed-point integers ([`coord::COORD_ONE`] is 1.0 in
//! normalized device space), and each tessellated vertex is a symbolic
//! [`geometry::VertexSlot`] saying which point of which primitive it is.
//! The rendering layer evaluates slots to floating-point positions; all
//! layout decisions — how many vertices each primitive owns, which vertex
//! every index refers to, where the cursor disc ends and path geometry
//! begins — are made and proved here.
#![verifier::loop_isolation(false)]

pub mod coord;
pub mod geometry;
pub mod model;
pub mod tess;
pub mod engine;
