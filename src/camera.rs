use crate::fixed_int::FixedInt10;
use vstd::prelude::*;

verus! {

/// Where the terrain is seen from: a position, an eye height, a vertical
/// look offset and a facing direction given by its cosine and sine.
#[derive(Copy, Clone, Debug)]
pub struct Camera {
    pub x: FixedInt10,
    pub y: FixedInt10,
    pub z: FixedInt10,
    pub horizon: i32,
    pub cos_angle: FixedInt10,
    pub sin_angle: FixedInt10,
}

impl Camera {
    /// A camera at `(x, y)` and height `z`, facing along angle zero.
    pub fn new(x: FixedInt10, y: FixedInt10, z: FixedInt10, horizon: i32) -> (r: Camera)
        ensures
            r.x == x,
            r.y == y,
            r.z == z,
            r.horizon == horizon,
            r.cos_angle.value == 1024,
            r.sin_angle.value == 0,
    {
        Camera {
            x,
            y,
            z,
            horizon,
            cos_angle: FixedInt10 { value: 1024 },
            sin_angle: FixedInt10 { value: 0 },
        }
    }

    /// Turns the camera to the direction whose cosine and sine are given.
    pub fn set_facing(&mut self, cos_angle: FixedInt10, sin_angle: FixedInt10)
        ensures
            final(self).cos_angle == cos_angle,
            final(self).sin_angle == sin_angle,
            final(self).x == old(self).x,
            final(self).y == old(self).y,
            final(self).z == old(self).z,
            final(self).horizon == old(self).horizon,
    {
        self.cos_angle = cos_angle;
        self.sin_angle = sin_angle;
    }
}

} // verus!
