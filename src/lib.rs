//! Tile-grid movement for a player entity: grid coordinates and their cells
//! on a tilemap, timed move actions advanced once per tick, the detection of
//! two-key diagonal chords, and the tile layout of a map chunk.

pub mod grid;
pub mod timer;
pub mod action;
pub mod chord;
pub mod tiles;
