//! Early-boot text output: a PSF bitmap-font store, a linear pixel surface,
//! a character grid overlaid on that surface, and a buffered teletype that
//! wraps an unbounded line history onto the grid.

pub mod driver;
pub mod graphics;
