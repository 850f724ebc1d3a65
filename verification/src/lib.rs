//! Texture atlas generation engine.
//!
//! Given a set of independently sized source images, this library computes a
//! packing layout onto one power-of-two canvas, resolves every image source
//! through an asynchronous loading primitive, and yields an immutable atlas
//! that exposes each source image as a normalized UV sub-rectangle addressable
//! by name.

pub mod atlas;
pub mod image;
pub mod rect_solver;
pub mod resolver;
pub mod sync;
pub mod utils;
