//! Scene logic of a small billiard-table ray tracer: the ball and felt
//! palettes, the parsing of colour names and command-line scene
//! descriptions, and the lattice tables of the Perlin felt texture.

pub mod cli;
pub mod color;
pub mod common;
pub mod material;
mod random;
pub mod random_scene;
pub mod scene_builder;
pub mod text;
