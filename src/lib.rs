//! Recovers the level data of three 8-bit platform games from memory dumps and
//! re-expresses it as a layered tile map with a packed sprite sheet.
//!
//! The pipeline: [`game::identify_game`] finds the payload by signature, one of the
//! three decoders in [`mm_parser`], [`jsw_parser`] and [`jsw2_parser`] turns it into
//! rooms and cells, and [`converter::RawToTiledConverter`] lays the rooms out as tile
//! layers and packs their sprites with [`image::create_spritesheet`].
use vstd::prelude::*;

pub mod bytes;
pub mod cells;
pub mod colours;
pub mod converter;
pub mod error;
pub mod game;
pub mod image;
pub mod jsw2_parser;
pub mod jsw_parser;
pub mod layout;
pub mod matrix;
pub mod mm_parser;
pub mod raw_game;
pub mod text;
pub mod tiled;

pub use error::{Error, GameConversionError};

verus! {

/// Result of the library's fallible operations.
pub type Result<T> = core::result::Result<T, Error>;

} // verus!
