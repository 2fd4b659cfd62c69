//! The newer driver-facing interfaces of the text-output stack. They keep
//! their own names and shapes but delegate to the graphics core, so both
//! generations of the API stay available over one verified implementation.

pub mod graphic_display;
pub mod text_display;
pub mod tty;
