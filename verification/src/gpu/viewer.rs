//! What the GPU viewer does with keys, resizes and frames.

use crate::gpu::camera::Camera;
use crate::gpu::rain::{fresh, RainSimulation};
use vstd::prelude::*;

verus! {

/// How often, in frames, the viewer reports its frame statistics.
pub const REPORT_EVERY: u64 = 120;

/// The viewer's rain: columns, rows, depth layers and spawn density
/// (millionths) of its simulation.
pub const RAIN_COLUMNS: usize = 80;
pub const RAIN_ROWS: usize = 60;
pub const RAIN_LAYERS: usize = 10;
pub const RAIN_DENSITY_PPM: u64 = 550_000;

/// The rain the viewer starts with, drawing from `charset_len` characters.
pub fn initial_rain(charset_len: usize) -> (sim: RainSimulation)
    requires
        charset_len > 0,
    ensures
        sim.wf(),
        sim.num_cols == RAIN_COLUMNS,
        sim.num_rows == RAIN_ROWS,
        sim.num_layers == RAIN_LAYERS,
        sim.density == RAIN_DENSITY_PPM,
        sim.charset_len == charset_len,
        forall|k: int| 0 <= k < sim.streams@.len() ==> fresh(#[trigger] sim.streams@[k], RAIN_ROWS, charset_len),
{
    RainSimulation::new(RAIN_COLUMNS, RAIN_ROWS, RAIN_LAYERS, RAIN_DENSITY_PPM, charset_len)
}

/// A pressed key, as the viewer sees it.
#[derive(Clone, Copy, Debug, PartialEq, Eq, Structural)]
pub enum ViewerKey {
    Escape,
    Char(char),
    Other,
}

/// What the window does after a key press.
#[derive(Clone, Copy, Debug, PartialEq, Eq, Structural)]
pub enum ViewerAction {
    /// Close the window and leave the event loop.
    Exit,
    /// Go fullscreen (`true`) or back to a window.
    SetFullscreen(bool),
    /// Nothing for the window to do.
    Nothing,
}

/// The viewer's own state: the camera, whether it is fullscreen, and how many
/// frames it has drawn.
#[derive(Clone, Copy, Debug, PartialEq, Eq, Structural)]
pub struct Viewer {
    pub camera: Camera,
    pub fullscreen: bool,
    pub frame_count: u64,
}

/// A key that zooms in: `+`, or `.`.
pub open spec fn is_zoom_in_key(c: char) -> bool {
    c == '+' || c == '.'
}

/// A key that zooms out: `-`, or `,`.
pub open spec fn is_zoom_out_key(c: char) -> bool {
    c == '-' || c == ','
}

impl Viewer {
    pub open spec fn wf(&self) -> bool {
        self.camera.wf()
    }

    /// A windowed viewer with a fresh camera on a `width` by `height` window.
    pub fn new(width: u32, height: u32) -> (v: Viewer)
        ensures
            v.wf(),
            v.camera == Camera::new_spec(width, height),
            !v.fullscreen,
            v.frame_count == 0,
    {
        Viewer { camera: Camera::new(width, height), fullscreen: false, frame_count: 0 }
    }

    /// Applies a key: Escape, `q` or `Q` exit; the zoom keys zoom the camera;
    /// `f` or `F` toggle fullscreen when there is a window to toggle; other
    /// keys do nothing.
    pub fn on_key(&mut self, key: ViewerKey, has_window: bool) -> (a: ViewerAction)
        requires
            old(self).wf(),
        ensures
            final(self).wf(),
            final(self).frame_count == old(self).frame_count,
            final(self).camera.aspect_w == old(self).camera.aspect_w,
            final(self).camera.aspect_h == old(self).camera.aspect_h,
            match key {
                ViewerKey::Escape => a == ViewerAction::Exit && *final(self) == *old(self),
                ViewerKey::Char(c) => if c == 'q' || c == 'Q' {
                    a == ViewerAction::Exit && *final(self) == *old(self)
                } else if is_zoom_in_key(c) {
                    a == ViewerAction::Nothing && final(self).fullscreen == old(self).fullscreen
                        && final(self).camera.fov_deg == crate::gpu::camera::zoomed_in(old(self).camera.fov_deg as int)
                } else if is_zoom_out_key(c) {
                    a == ViewerAction::Nothing && final(self).fullscreen == old(self).fullscreen
                        && final(self).camera.fov_deg == crate::gpu::camera::zoomed_out(old(self).camera.fov_deg as int)
                } else if (c == 'f' || c == 'F') && has_window {
                    a == ViewerAction::SetFullscreen(!old(self).fullscreen) && final(self).fullscreen
                        == !old(self).fullscreen && final(self).camera == old(self).camera
                } else {
                    a == ViewerAction::Nothing && *final(self) == *old(self)
                },
                ViewerKey::Other => a == ViewerAction::Nothing && *final(self) == *old(self),
            },
    {
        match key {
            ViewerKey::Escape => ViewerAction::Exit,
            ViewerKey::Char(c) => {
                if c == 'q' || c == 'Q' {
                    ViewerAction::Exit
                } else if c == '+' || c == '.' {
                    self.camera.zoom_in();
                    ViewerAction::Nothing
                } else if c == '-' || c == ',' {
                    self.camera.zoom_out();
                    ViewerAction::Nothing
                } else if (c == 'f' || c == 'F') && has_window {
                    self.fullscreen = !self.fullscreen;
                    ViewerAction::SetFullscreen(self.fullscreen)
                } else {
                    ViewerAction::Nothing
                }
            },
            ViewerKey::Other => ViewerAction::Nothing,
        }
    }

    /// Takes a new window size: the camera's viewport follows when the height
    /// is not zero. Returns whether the render targets must be rebuilt, which
    /// is when neither side is zero.
    pub fn on_resize(&mut self, width: u32, height: u32) -> (rebuild: bool)
        requires
            old(self).wf(),
        ensures
            final(self).wf(),
            rebuild == (width > 0 && height > 0),
            final(self).fullscreen == old(self).fullscreen,
            final(self).frame_count == old(self).frame_count,
            final(self).camera.fov_deg == old(self).camera.fov_deg,
            height > 0 ==> final(self).camera.aspect_w == width && final(self).camera.aspect_h == height,
            height == 0 ==> final(self).camera == old(self).camera,
    {
        if height > 0 {
            self.camera.set_aspect(width, height);
        }
        width > 0 && height > 0
    }

    /// Counts a drawn frame; returns whether this frame's statistics are
    /// reported: the first frame and every `REPORT_EVERY` frames after it.
    pub fn next_frame(&mut self) -> (report: bool)
        requires
            old(self).frame_count < u64::MAX,
        ensures
            *final(self) == (Viewer { frame_count: (old(self).frame_count + 1) as u64, ..*old(self) }),
            report == ((old(self).frame_count + 1) % (REPORT_EVERY as int) == 1),
    {
        self.frame_count = self.frame_count + 1;
        self.frame_count % REPORT_EVERY == 1
    }
}

} // verus!
