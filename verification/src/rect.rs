//! Axis-aligned pixel rectangles whose sides always fit in `i32`.

use vstd::prelude::*;

verus! {

/// Largest position and largest side length of a rectangle: half of
/// `i32::MAX`, so that `x + w` and `y + h` never leave `i32`.
pub const MAX_COORD: i32 = 0x3fff_ffff;

/// Smallest position of a rectangle: half of `i32::MIN`.
pub const MIN_COORD: i32 = -0x4000_0000;

/// A rectangle with its upper left corner at `(x, y)`.
#[derive(Debug, Clone, Copy, PartialEq, Eq, Structural)]
pub struct Rect {
    pub x: i32,
    pub y: i32,
    pub w: u32,
    pub h: u32,
}

/// A position, moved into `MIN_COORD ..= MAX_COORD` if it lies outside.
pub open spec fn clamp_position(val: int) -> int {
    if val > MAX_COORD {
        MAX_COORD as int
    } else if val < MIN_COORD {
        MIN_COORD as int
    } else {
        val
    }
}

/// A side length, moved into `1 ..= MAX_COORD` if it lies outside.
pub open spec fn clamp_size(val: int) -> int {
    if val <= 0 {
        1
    } else if val > MAX_COORD {
        MAX_COORD as int
    } else {
        val
    }
}

impl Rect {
    /// Positions and side lengths are within their limits, so the
    /// rectangle is non-empty and its far sides fit in `i32`.
    pub open spec fn wf(self) -> bool {
        &&& MIN_COORD <= self.x <= MAX_COORD
        &&& MIN_COORD <= self.y <= MAX_COORD
        &&& 1 <= self.w <= MAX_COORD
        &&& 1 <= self.h <= MAX_COORD
    }

    /// The point `(px, py)` lies inside: the left and top sides belong to
    /// the rectangle, the right and bottom sides do not.
    pub open spec fn contains_spec(self, px: int, py: int) -> bool {
        &&& self.x <= px < self.x + self.w
        &&& self.y <= py < self.y + self.h
    }

    /// A rectangle from the given values, each clamped into its limits.
    pub fn new(x: i32, y: i32, width: u32, height: u32) -> (r: Rect)
        ensures
            r.wf(),
            r.x == clamp_position(x as int),
            r.y == clamp_position(y as int),
            r.w == clamp_size(width as int),
            r.h == clamp_size(height as int),
    {
        Rect {
            x: Self::clamped_position(x),
            y: Self::clamped_position(y),
            w: Self::clamped_size(width),
            h: Self::clamped_size(height),
        }
    }

    fn clamped_position(val: i32) -> (r: i32)
        ensures
            r == clamp_position(val as int),
    {
        if val > MAX_COORD {
            MAX_COORD
        } else if val < MIN_COORD {
            MIN_COORD
        } else {
            val
        }
    }

    fn clamped_size(val: u32) -> (r: u32)
        ensures
            r == clamp_size(val as int),
    {
        if val == 0 {
            1
        } else if val > MAX_COORD as u32 {
            MAX_COORD as u32
        } else {
            val
        }
    }

    /// Whether the point `(px, py)` lies inside this rectangle.
    pub fn contains_point(&self, px: i32, py: i32) -> (inside: bool)
        ensures
            inside == self.contains_spec(px as int, py as int),
    {
        let inside_x = px >= self.x && (px as i64) < self.x as i64 + self.w as i64;
        inside_x && py >= self.y && (py as i64) < self.y as i64 + self.h as i64
    }
}

} // verus!
