//! Continuous collision detection and contact resolution for one
//! axis-aligned box moving through voxel terrain.
//!
//! The terrain is a lattice of tiles: empty cells, full unit cubes, and
//! sloped cells whose solid region is the half-space
//! `direction . (p - tile_origin) <= level`.  Each simulation step applies
//! the input force, finds the surfaces the box rests against, clips the
//! velocity so it never drives into a touched surface, and then consumes
//! the timestep by sweeping the box to the earliest impact, advancing,
//! and repeating on the remaining time.
//!
//! Every quantity is a fixed-point number: an `i64` counting steps of
//! `1 / FP_ONE` world units.  Surface normals are kept as exact small
//! integer vectors, never normalized, so the contact arithmetic is exact
//! integer linear algebra and the solver's guarantee - the returned
//! velocity has a non-negative dot product with every contact normal -
//! holds with no epsilon at all.

pub mod axes;
pub mod collision;
pub mod constraints;
pub mod contact;
pub mod fixed;
pub mod raycast;
pub mod step;
pub mod terrain;
pub mod tile;
pub mod vectors;

pub use fixed::FP_ONE;
