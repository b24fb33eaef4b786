//! A perceptual image hash: a fixed-length bit fingerprint of an image such
//! that visually similar images give fingerprints close in Hamming distance.

pub mod bits;
pub mod grid;
pub mod hash;

pub use crate::grid::crop_top_left;
pub use crate::grid::mean_hash_bits;
pub use crate::hash::ImageHash;
