//! Decision logic of a randomised strip- and square-packing heuristic: which
//! rotation an item may take, how overlap between placed items is booked and
//! weighted, how the container is shrunk, and how a run is configured.
//!
//! Geometry itself (polygons, transforms, collision queries) is computed in
//! floating point by the caller; this library receives its results as
//! integers in a fixed unit and decides what to do with them.

pub mod random;
pub mod rotation;
pub mod problem;
pub mod assertions;
pub mod tracker;
pub mod compress;
pub mod config;
pub mod explore;
pub mod descent;
pub mod search;
pub mod layout;
pub mod translation;
