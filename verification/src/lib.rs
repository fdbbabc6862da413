//! Movement and level-grid core of a tile-based game: a textual level
//! description becomes a bounds-checked 2D tile grid, and grid-aligned entity
//! movement is driven as smoothly animated transitions over a tick clock.

pub mod array2;
pub mod component;
pub mod events;
pub mod level;
pub mod states;
pub mod system;
pub mod tile;
