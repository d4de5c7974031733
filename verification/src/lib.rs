//! A small image-filtering kernel over raw RGBA pixel buffers: a 3x3
//! Gaussian-like blur in two algorithmically equivalent passes (a naive
//! reference pass and a vectorization-friendly pass), and a deterministic
//! uniform "grain" buffer.

pub mod engine;
pub mod kernel;
