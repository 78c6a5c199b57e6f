use vstd::prelude::*;

verus! {

/// One unit of texture space in fixed-point micro-units: UV coordinates in
/// this library range over `0 ..= UV_ONE` across a whole texture.
pub const UV_ONE: i64 = 1_000_000;

/// One pixel in fixed-point milli-units: positions, scales and distances are
/// stored as multiples of 1/1000 of a pixel.
pub const MILLI: i64 = 1_000;

/// A two-dimensional integer vector.
#[derive(Clone, Copy, Debug, PartialEq, Eq, Structural)]
pub struct Vec2i {
    pub x: i64,
    pub y: i64,
}

impl Vec2i {
    /// The zero vector.
    pub fn zero() -> (r: Vec2i)
        ensures
            r.x == 0 && r.y == 0,
    {
        Vec2i { x: 0, y: 0 }
    }

    pub fn new(x: i64, y: i64) -> (r: Vec2i)
        ensures
            r.x == x && r.y == y,
    {
        Vec2i { x, y }
    }
}

/// An axis-aligned rectangle: origin plus extent.
#[derive(Clone, Copy, Debug, PartialEq, Eq, Structural)]
pub struct Rect {
    pub x: i64,
    pub y: i64,
    pub w: i64,
    pub h: i64,
}

impl Rect {
    /// The degenerate rectangle at the origin.
    pub fn zero() -> (r: Rect)
        ensures
            r == (Rect { x: 0, y: 0, w: 0, h: 0 }),
    {
        Rect { x: 0, y: 0, w: 0, h: 0 }
    }

    pub fn new(x: i64, y: i64, w: i64, h: i64) -> (r: Rect)
        ensures
            r == (Rect { x, y, w, h }),
    {
        Rect { x, y, w, h }
    }
}

/// An RGBA colour with 8-bit channels.
#[derive(Clone, Copy, Debug, PartialEq, Eq, Structural)]
pub struct Color {
    pub r: u8,
    pub g: u8,
    pub b: u8,
    pub a: u8,
}

impl Color {
    /// Opaque white, the default tint of text runs and images.
    pub fn white() -> (c: Color)
        ensures
            c == (Color { r: 255, g: 255, b: 255, a: 255 }),
    {
        Color { r: 255, g: 255, b: 255, a: 255 }
    }

    /// Transparent black, what an unknown palette name resolves to.
    pub fn none() -> (c: Color)
        ensures
            c == (Color { r: 0, g: 0, b: 0, a: 0 }),
    {
        Color { r: 0, g: 0, b: 0, a: 0 }
    }
}

} // verus!
