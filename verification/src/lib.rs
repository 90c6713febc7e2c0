//! Reusable, verified core of a set of small graphics demos: an Euler-angle
//! free-look camera held in exact fixed-point arithmetic, the build protocol
//! of a two-stage shader program, geometry buffers with fixed vertex layouts,
//! and texture images decoded and flipped into raw pixel rows.
//!
//! Everything that talks to a window system or a graphics device lives
//! outside this crate; the crate computes the states, counts, layouts and
//! pixel buffers that such a driver uploads.

pub mod angle;
pub mod camera;
pub mod fixed;
pub mod geometry;
pub mod shader;
pub mod texture;
pub mod vec3;
