//! Host-side helpers for small compute-kernel demonstrations: building the
//! input arrays, laying them out row by row, rendering them as text, and
//! choosing the platform and device to run on.

pub mod countup;
pub mod render;
pub mod setup;
