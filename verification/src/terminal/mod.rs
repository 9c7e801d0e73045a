//! The terminal renderer's logic: streams, the frame plan and the options menu.

pub mod stream;
pub mod menu;
pub mod screen;
