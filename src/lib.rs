//! A parallel Monte-Carlo renderer's core: environment radiance models,
//! the per-pixel estimator, and the bookkeeping that turns per-pixel jobs
//! into a complete image.
//!
//! Quantities are fixed-point integers: `ONE` stands for 1.0.

pub mod vector;
pub mod sky;
pub mod integrator;
pub mod render;
pub mod config;
