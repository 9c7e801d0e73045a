//! The GPU renderer's logic: the layered rain simulation, the glyph atlas
//! pixels, the camera zoom and the viewer's keys.

pub mod rain;
pub mod atlas;
pub mod camera;
pub mod viewer;
