//! Core of a voxel renderer: a fixed-size block grid with culled-face
//! meshing, a projective-geometric-algebra motor/point algebra over
//! fixed-point scalars, a camera controller driven by movement flags,
//! and a packer that lays the visible faces out in one GPU-ready byte
//! buffer with alignment-rounded per-direction offsets.

pub mod chunk;
pub mod fixed;
pub mod math;
pub mod camera;
pub mod packer;
