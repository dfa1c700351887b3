//! Integer screen geometry: sizes, coordinates and rectangles.
//!
//! All arithmetic saturates instead of wrapping or panicking: layout must
//! stay defined even for degenerate window sizes.

use vstd::prelude::*;
use crate::size_rules::sat_add32;

verus! {

/// `x - y` on `u32`, clamped at zero instead of wrapping.
pub open spec fn sat_sub32(x: int, y: int) -> int {
    if x - y < 0 {
        0
    } else {
        x - y
    }
}

/// `x + y` clamped into `i32`'s range from above (both summands are at least
/// zero or the sum stays above `i32::MIN`).
pub open spec fn clamp_add_i32(x: int, y: int) -> int {
    if x + y > i32::MAX {
        i32::MAX as int
    } else {
        x + y
    }
}

/// A widget's extent in pixels: horizontal then vertical.
#[derive(Clone, Copy, Debug, PartialEq, Eq, Structural)]
pub struct Size(pub u32, pub u32);

impl Size {
    /// The zero size.
    pub fn zero() -> (r: Size)
        ensures
            r == Size(0u32, 0u32),
    {
        Size(0, 0)
    }

    /// The same extent on both axes.
    pub fn uniform(v: u32) -> (r: Size)
        ensures
            r == Size(v, v),
    {
        Size(v, v)
    }

    /// Componentwise sum, clamped at `u32::MAX`.
    pub fn saturating_add(self, other: Size) -> (r: Size)
        ensures
            r.0 as int == sat_add32(self.0 as int, other.0 as int),
            r.1 as int == sat_add32(self.1 as int, other.1 as int),
    {
        Size(self.0.saturating_add(other.0), self.1.saturating_add(other.1))
    }

    /// Componentwise difference, clamped at zero.
    pub fn saturating_sub(self, other: Size) -> (r: Size)
        ensures
            r.0 as int == sat_sub32(self.0 as int, other.0 as int),
            r.1 as int == sat_sub32(self.1 as int, other.1 as int),
    {
        Size(self.0.saturating_sub(other.0), self.1.saturating_sub(other.1))
    }
}

/// A position in pixels: horizontal then vertical.
#[derive(Clone, Copy, Debug, PartialEq, Eq, Structural)]
pub struct Coord(pub i32, pub i32);

impl Coord {
    /// The origin.
    pub fn zero() -> (r: Coord)
        ensures
            r == Coord(0i32, 0i32),
    {
        Coord(0, 0)
    }

    /// Offset a position by a size, clamping at the coordinate range's top.
    pub fn saturating_add_size(self, s: Size) -> (r: Coord)
        ensures
            r.0 as int == clamp_add_i32(self.0 as int, s.0 as int),
            r.1 as int == clamp_add_i32(self.1 as int, s.1 as int),
    {
        let x = (self.0 as i64) + (s.0 as i64);
        let y = (self.1 as i64) + (s.1 as i64);
        let cx: i32 = if x > i32::MAX as i64 {
            i32::MAX
        } else {
            x as i32
        };
        let cy: i32 = if y > i32::MAX as i64 {
            i32::MAX
        } else {
            y as i32
        };
        Coord(cx, cy)
    }
}

/// An axis-aligned rectangle: a position and the extent to its right and
/// below.
#[derive(Clone, Copy, Debug, PartialEq, Eq, Structural)]
pub struct Rect {
    /// The top-left corner.
    pub pos: Coord,
    /// The extent to the right of / below `pos`.
    pub size: Size,
}

impl Rect {
    /// The empty rectangle at the origin.
    pub fn zero() -> (r: Rect)
        ensures
            r == (Rect { pos: Coord(0i32, 0i32), size: Size(0u32, 0u32) }),
    {
        Rect { pos: Coord(0, 0), size: Size(0, 0) }
    }
}

} // verus!
