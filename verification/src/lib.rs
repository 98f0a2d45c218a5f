//! Subtitle selection, caching and provider reply handling for the MovieBox
//! terminal player.
//!
//! - `subtitles`: subtitle options, Turkish labels, the MovieBox caption
//!   list, the choices offered to the player, cache keys and paths, settings.
//! - `opensubtitles`, `subdl`: what the two subtitle providers are asked and
//!   what is read from their replies, as step functions that an I/O loop runs.
//! - `json`, `text`, `digest`, `paths`, `archive`: the building blocks.
//! - `laws`: properties that hold across functions.

pub mod archive;
pub mod digest;
pub mod json;
pub mod laws;
pub mod opensubtitles;
pub mod paths;
pub mod subdl;
pub mod subtitles;
pub mod text;
