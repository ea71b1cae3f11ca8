//! A small feed-forward neural-network training engine.
//!
//! A model is an ordered pipeline of layers, each exposing forward inference
//! and backward gradient propagation, driven by a loss function and an online
//! (per-example) gradient-descent training loop.  Shape compatibility between
//! adjacent layers is checked when the pipeline is assembled, so that a built
//! model never encounters a shape mismatch while running.
//!
//! All numeric work is expressed over an abstract scalar type (see
//! [`num::Num`]); the caller supplies a concrete scalar when instantiating the
//! pipeline.

pub mod func;
pub mod layer;
pub mod loss;
pub mod matrix;
pub mod model;
pub mod num;
