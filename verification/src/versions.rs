//! The decoders, one for each version of the game.

pub mod windows_7;
pub mod windows_xp;
