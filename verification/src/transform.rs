use vstd::prelude::*;
use crate::geom::Vec2i;
use crate::util::{sat_add_i64, sat_i64, sat_sub_i64};

verus! {

/// A local 2D transform: position, rotation (milli-degrees), scale
/// (milli-units: 1000 is the identity) and origin.  The renderer builds the
/// model matrix from these; the library itself applies only the affine
/// translation-scale-origin part when a caller asks for bounds, leaving the
/// rotation to the matrix.
#[derive(Clone, Copy, Debug, PartialEq, Eq, Structural)]
pub struct Transform2D {
    pub position: Vec2i,
    pub rotation: i64,
    pub scale: Vec2i,
    pub origin: Vec2i,
}

/// `v` scaled by the milli-unit factor `s`, with truncating division and a
/// result clamped to the `i64` range.
pub open spec fn spec_scaled(s: int, v: int) -> int {
    let m = (if s >= 0 { s } else { -s }) * (if v >= 0 { v } else { -v }) / 1000;
    if (s < 0) != (v < 0) {
        sat_i64(-m)
    } else {
        sat_i64(m)
    }
}

/// One coordinate of a point taken through the transform:
/// `position + scale * p - origin`, each step clamped to the `i64` range.
pub open spec fn spec_map_coord(pos: int, s: int, origin: int, p: int) -> int {
    sat_i64(sat_i64(pos + spec_scaled(s, p)) - origin)
}

/// A point taken through the transform, without the rotation.
pub open spec fn spec_map_point(t: Transform2D, p: Vec2i) -> Vec2i {
    Vec2i {
        x: spec_map_coord(t.position.x as int, t.scale.x as int, t.origin.x as int, p.x as int)
            as i64,
        y: spec_map_coord(t.position.y as int, t.scale.y as int, t.origin.y as int, p.y as int)
            as i64,
    }
}

/// `v` scaled by the milli-unit factor `s`.
fn scaled(s: i64, v: i64) -> (r: i64)
    ensures
        r as int == spec_scaled(s as int, v as int),
{
    let sa: u128 = if s >= 0 {
        s as u128
    } else {
        (-(s as i128)) as u128
    };
    let va: u128 = if v >= 0 {
        v as u128
    } else {
        (-(v as i128)) as u128
    };
    proof {
        assert(sa * va <= 0x8000000000000000u128 * 0x8000000000000000u128) by (nonlinear_arith)
            requires
                sa <= 0x8000000000000000u128,
                va <= 0x8000000000000000u128,
        ;
    }
    let m: u128 = (sa * va) / 1000;
    if (s < 0) != (v < 0) {
        if m > 9223372036854775808u128 {
            i64::MIN
        } else {
            (-(m as i128)) as i64
        }
    } else {
        if m > i64::MAX as u128 {
            i64::MAX
        } else {
            m as i64
        }
    }
}

impl Transform2D {
    /// The identity transform.
    pub fn new() -> (r: Transform2D)
        ensures
            r == (Transform2D {
                position: Vec2i { x: 0, y: 0 },
                rotation: 0,
                scale: Vec2i { x: 1000, y: 1000 },
                origin: Vec2i { x: 0, y: 0 },
            }),
    {
        Transform2D {
            position: Vec2i { x: 0, y: 0 },
            rotation: 0,
            scale: Vec2i { x: 1000, y: 1000 },
            origin: Vec2i { x: 0, y: 0 },
        }
    }

    pub fn setPosition(&mut self, pos: Vec2i)
        ensures
            *final(self) == (Transform2D { position: pos, ..*old(self) }),
    {
        self.position = pos;
    }

    /// Moves the position by `delta`, clamping on overflow.
    pub fn translate(&mut self, delta: Vec2i)
        ensures
            *final(self) == (Transform2D {
                position: Vec2i {
                    x: sat_i64(old(self).position.x + delta.x) as i64,
                    y: sat_i64(old(self).position.y + delta.y) as i64,
                },
                ..*old(self)
            }),
    {
        self.position = Vec2i {
            x: sat_add_i64(self.position.x, delta.x),
            y: sat_add_i64(self.position.y, delta.y),
        };
    }

    pub fn getPosition(&self) -> (r: Vec2i)
        ensures
            r == self.position,
    {
        self.position
    }

    pub fn setRotation(&mut self, angle: i64)
        ensures
            *final(self) == (Transform2D { rotation: angle, ..*old(self) }),
    {
        self.rotation = angle;
    }

    /// Turns by `angle` milli-degrees, clamping on overflow.
    pub fn rotate(&mut self, angle: i64)
        ensures
            *final(self) == (Transform2D {
                rotation: sat_i64(old(self).rotation + angle) as i64,
                ..*old(self)
            }),
    {
        self.rotation = sat_add_i64(self.rotation, angle);
    }

    pub fn getRotation(&self) -> (r: i64)
        ensures
            r == self.rotation,
    {
        self.rotation
    }

    pub fn setScale(&mut self, factor: Vec2i)
        ensures
            *final(self) == (Transform2D { scale: factor, ..*old(self) }),
    {
        self.scale = factor;
    }

    /// Adds `factor` to the scale, clamping on overflow.
    pub fn scale(&mut self, factor: Vec2i)
        ensures
            *final(self) == (Transform2D {
                scale: Vec2i {
                    x: sat_i64(old(self).scale.x + factor.x) as i64,
                    y: sat_i64(old(self).scale.y + factor.y) as i64,
                },
                ..*old(self)
            }),
    {
        self.scale = Vec2i {
            x: sat_add_i64(self.scale.x, factor.x),
            y: sat_add_i64(self.scale.y, factor.y),
        };
    }

    pub fn getScale(&self) -> (r: Vec2i)
        ensures
            r == self.scale,
    {
        self.scale
    }

    pub fn setOrigin(&mut self, origin: Vec2i)
        ensures
            *final(self) == (Transform2D { origin, ..*old(self) }),
    {
        self.origin = origin;
    }

    pub fn getOrigin(&self) -> (r: Vec2i)
        ensures
            r == self.origin,
    {
        self.origin
    }

    /// Takes a point through the transform's translation, scale and origin.
    pub fn mapPoint(&self, p: Vec2i) -> (r: Vec2i)
        ensures
            r == spec_map_point(*self, p),
    {
        let sx = scaled(self.scale.x, p.x);
        let sy = scaled(self.scale.y, p.y);
        Vec2i {
            x: sat_sub_i64(sat_add_i64(self.position.x, sx), self.origin.x),
            y: sat_sub_i64(sat_add_i64(self.position.y, sy), self.origin.y),
        }
    }
}

} // verus!
