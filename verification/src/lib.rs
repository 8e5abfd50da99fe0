//! A tile map for a grid-based roguelike and the routine that paints it,
//! together with the entities standing on it, onto a character display.

pub mod grid;
pub mod map;
pub mod point;
pub mod render;
pub mod scene;
pub mod surface;
pub mod tile;
