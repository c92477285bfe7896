//! An evolutionary triangle painter: the library approximates a fixed raster
//! reference image by iteratively committing colored (optionally translucent)
//! triangles onto a canvas, each chosen by a seeded generational search that
//! maximizes a pixel-difference fitness.
//!
//! The search pipeline (population generation, fitness scoring, selection,
//! crossover and mutation, degeneracy filtering, the outer control loop with
//! cooperative cancellation) is verified. Triangle rasterization and the
//! pseudo-random word stream come from outside crates behind small trusted
//! wrappers; everything computed from their results is proved.

pub mod canvas;
pub mod engine;
pub mod fitness;
pub mod genetic;
pub mod geometry;
pub mod laws;
pub mod params;
pub mod rng;
pub mod triangle;

