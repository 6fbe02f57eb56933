//! A reveal puzzle on a fixed grid of glyph tiles.
//!
//! A picture is loaded from text into a grid whose tiles all start out
//! hidden; rows are then uncovered one at a time, in random order, until the
//! whole picture shows.

pub mod app;
pub mod game;
pub mod grid;
pub mod handler;
pub mod picture;
pub mod random;
pub mod text;
pub mod tile;
