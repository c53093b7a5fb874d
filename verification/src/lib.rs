//! A 2D tile-grid world generator and visibility tracker for a turn-based
//! grid game: dungeon and cave layout synthesis on a bounded integer grid,
//! per-tile state (passable, blocks-sight, explored), and a field-of-view
//! pass that marks visible tiles explored.

pub mod caves;
pub mod fov;
pub mod grid;
pub mod object;
pub mod rect;
pub mod rng;
pub mod rooms;
pub mod tile;

pub use fov::VisibilityTracker;
pub use grid::Grid;
pub use object::Object;
pub use rect::Rect;
pub use tile::Tile;
