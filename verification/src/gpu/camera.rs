//! The camera's zoom: its vertical field of view, and the viewport its
//! aspect ratio comes from.

use vstd::prelude::*;

verus! {

/// The field of view a camera starts with, in degrees.
pub const FOV_DEFAULT: u32 = 60;
/// The narrowest and widest field of view, in degrees.
pub const FOV_MIN: u32 = 20;
pub const FOV_MAX: u32 = 120;
/// How far one zoom step changes the field of view, in degrees.
pub const FOV_STEP: u32 = 2;

/// A camera: its vertical field of view in degrees, and the viewport width
/// and height whose ratio is its aspect.
#[derive(Clone, Copy, Debug, PartialEq, Eq, Structural)]
pub struct Camera {
    pub fov_deg: u32,
    pub aspect_w: u32,
    pub aspect_h: u32,
}

impl Camera {
    /// A camera with the default field of view on a `width` by `height`
    /// viewport.
    pub open spec fn new_spec(width: u32, height: u32) -> Camera {
        Camera { fov_deg: FOV_DEFAULT, aspect_w: width, aspect_h: height }
    }

    /// The field of view lies between the narrowest and widest, a whole
    /// number of steps from the default.
    pub open spec fn wf(&self) -> bool {
        &&& FOV_MIN <= self.fov_deg <= FOV_MAX
        &&& self.fov_deg % FOV_STEP == 0
    }

    /// A camera with the default field of view on a `width` by `height`
    /// viewport.
    pub fn new(width: u32, height: u32) -> (c: Camera)
        ensures
            c.wf(),
            c == Camera::new_spec(width, height),
    {
        Camera { fov_deg: FOV_DEFAULT, aspect_w: width, aspect_h: height }
    }

    /// Narrows the field of view by a step, down to the narrowest.
    pub fn zoom_in(&mut self)
        requires
            old(self).wf(),
        ensures
            final(self).wf(),
            final(self).fov_deg == (if old(self).fov_deg >= FOV_MIN + FOV_STEP {
                old(self).fov_deg - FOV_STEP
            } else {
                FOV_MIN as int
            }),
            final(self).aspect_w == old(self).aspect_w,
            final(self).aspect_h == old(self).aspect_h,
    {
        self.fov_deg = if self.fov_deg >= FOV_MIN + FOV_STEP { self.fov_deg - FOV_STEP } else { FOV_MIN };
    }

    /// Widens the field of view by a step, up to the widest.
    pub fn zoom_out(&mut self)
        requires
            old(self).wf(),
        ensures
            final(self).wf(),
            final(self).fov_deg == (if old(self).fov_deg + FOV_STEP <= FOV_MAX {
                old(self).fov_deg + FOV_STEP
            } else {
                FOV_MAX as int
            }),
            final(self).aspect_w == old(self).aspect_w,
            final(self).aspect_h == old(self).aspect_h,
    {
        self.fov_deg = if self.fov_deg + FOV_STEP <= FOV_MAX { self.fov_deg + FOV_STEP } else { FOV_MAX };
    }

    /// Takes the viewport size `width` by `height`; the field of view stays.
    pub fn set_aspect(&mut self, width: u32, height: u32)
        ensures
            *final(self) == (Camera { aspect_w: width, aspect_h: height, ..*old(self) }),
    {
        self.aspect_w = width;
        self.aspect_h = height;
    }
}

/// The field of view after zooming in a step.
pub open spec fn zoomed_in(fov: int) -> int {
    if fov >= FOV_MIN + FOV_STEP { fov - FOV_STEP } else { FOV_MIN as int }
}

/// The field of view after zooming out a step.
pub open spec fn zoomed_out(fov: int) -> int {
    if fov + FOV_STEP <= FOV_MAX { fov + FOV_STEP } else { FOV_MAX as int }
}

/// Zooming in then out restores the field of view, unless it was already
/// the narrowest; zooming out then in restores it, unless it was already
/// the widest.
pub proof fn lemma_zoom_round_trip(c: Camera)
    requires
        c.wf(),
    ensures
        c.fov_deg > FOV_MIN ==> zoomed_out(zoomed_in(c.fov_deg as int)) == c.fov_deg,
        c.fov_deg < FOV_MAX ==> zoomed_in(zoomed_out(c.fov_deg as int)) == c.fov_deg,
{
}

/// Any number of zoom steps keeps the field of view between the narrowest
/// and widest.
pub proof fn lemma_zoom_stays_in_range(fov: int)
    requires
        FOV_MIN <= fov <= FOV_MAX,
    ensures
        FOV_MIN <= zoomed_in(fov) <= FOV_MAX,
        FOV_MIN <= zoomed_out(fov) <= FOV_MAX,
{
}

} // verus!
