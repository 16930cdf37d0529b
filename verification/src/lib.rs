//! Loader for WAD asset containers and the level geometry they describe:
//! typed records decoded from raw lumps, the per-level data store, and the
//! near-to-far walk of a level's partition tree.

pub mod buffer;
pub mod error;
pub mod font;
pub mod game;
pub mod graphics;
pub mod level;
pub mod map;
pub mod map_items;
pub mod names;
pub mod painter;
pub mod palette;
pub mod pixmap;
pub mod sdl_wrapper;
pub mod things;
pub mod utils;
pub mod wad;

pub use error::WadError;
pub use game::DoomGame;
pub use painter::RGB;
pub use sdl_wrapper::{SdlConfiguration, SleepKind};
pub use wad::WadData;
