//! A chunked 2D tile grid with camera-driven viewport culling.
//!
//! The map is a fixed grid of square chunks, each an `n` x `n` block of
//! tiles; a tile carries an index into a shared texture atlas. The library
//! does the exact integer work of such a renderer: translating absolute tile
//! coordinates to (chunk, local) pairs, reading and writing tiles, computing
//! the rectangle of chunk indices a camera can see, and emitting the list of
//! draw commands for the visible chunks. The rendering backend that executes
//! the commands, and the conversion of its floating-point camera state into
//! the exact rational form used here, live outside the library.

pub mod chunk;
pub mod culling;
pub mod geom;
pub mod tile;
pub mod tilemap;
