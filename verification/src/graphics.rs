//! The graphics stack, layered bottom-up: colors, the pixel surface, the
//! font store, the character grid, and the buffered teletype.

pub mod color;
pub mod display;
pub mod font;
pub mod terminal;
pub mod tty;
