//! Digital rain: the stream, menu, glyph-atlas and camera logic behind a
//! terminal renderer and a GPU renderer.

pub mod glyphs;
pub mod palette;
mod random;
pub mod terminal;
pub mod gpu;
