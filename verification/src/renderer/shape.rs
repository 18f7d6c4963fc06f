//! Rectangles and the styles of simple shapes.

use crate::renderer::frame::{ClearColor, ShadowStyle};
use vstd::prelude::*;

verus! {

/// A rectangle in pixels; its right and bottom edges lie outside of it.
#[derive(Debug, Clone, Copy, PartialEq, Eq, Structural)]
pub struct Rect {
    pub x: i32,
    pub y: i32,
    pub width: i32,
    pub height: i32,
}

/// The nearest value that an `i32` can hold.
pub open spec fn clamped(value: int) -> i32 {
    if value < i32::MIN {
        i32::MIN
    } else if value > i32::MAX {
        i32::MAX
    } else {
        value as i32
    }
}

/// A frame extent as a signed number of 32 bits.
pub open spec fn signed_extent(extent: u32) -> int {
    if extent <= i32::MAX {
        extent as int
    } else {
        extent - 0x1_0000_0000
    }
}

pub open spec fn max_int(a: int, b: int) -> int {
    if a >= b {
        a
    } else {
        b
    }
}

pub open spec fn min_int(a: int, b: int) -> int {
    if a <= b {
        a
    } else {
        b
    }
}

/// Half of a number, towards zero.
pub open spec fn half(value: int) -> int {
    if value >= 0 {
        value / 2
    } else {
        -((-value) / 2)
    }
}

/// Whether a pixel lies in a rectangle.
pub open spec fn covers(rect: Rect, x: int, y: int) -> bool {
    rect.x <= x < rect.x + rect.width && rect.y <= y < rect.y + rect.height
}

pub(crate) fn clamp_i64(value: i64) -> (result: i32)
    ensures
        result == clamped(value as int),
{
    if value < i32::MIN as i64 {
        i32::MIN
    } else if value > i32::MAX as i64 {
        i32::MAX
    } else {
        value as i32
    }
}

/// Half of a number, towards zero.
pub(crate) fn half_i64(value: i64) -> (result: i64)
    requires
        value > i64::MIN,
    ensures
        result == half(value as int),
{
    if value >= 0 {
        value / 2
    } else {
        -((-value) / 2)
    }
}

/// A frame extent as a signed number of 32 bits.
pub fn signed(extent: u32) -> (value: i32)
    ensures
        value == signed_extent(extent),
{
    if extent <= i32::MAX as u32 {
        extent as i32
    } else {
        (extent as i64 - 0x1_0000_0000) as i32
    }
}

impl Rect {
    pub fn new(x: i32, y: i32, width: i32, height: i32) -> (rect: Self)
        ensures
            rect == (Rect { x, y, width, height }),
    {
        Self { x, y, width, height }
    }

    pub fn is_empty(self) -> (empty: bool)
        ensures
            empty == (self.width <= 0 || self.height <= 0),
    {
        self.width <= 0 || self.height <= 0
    }

    /// The first column to the right of the rectangle.
    pub fn right(self) -> (edge: i32)
        ensures
            edge == clamped(self.x + self.width),
    {
        clamp_i64(self.x as i64 + self.width as i64)
    }

    /// The first row below the rectangle.
    pub fn bottom(self) -> (edge: i32)
        ensures
            edge == clamped(self.y + self.height),
    {
        clamp_i64(self.y as i64 + self.height as i64)
    }

    /// The part of the rectangle that lies in a frame; without width or height where there is
    /// none.
    pub fn clipped_to(self, width: i32, height: i32) -> (rect: Rect)
        ensures
            rect == clip(self, width as int, height as int),
    {
        let left: i64 = if self.x > 0 {
            self.x as i64
        } else {
            0
        };
        let top: i64 = if self.y > 0 {
            self.y as i64
        } else {
            0
        };
        let right: i64 = self.x as i64 + self.width as i64;
        let bottom: i64 = self.y as i64 + self.height as i64;
        let right: i64 = if right < width as i64 {
            right
        } else {
            width as i64
        };
        let bottom: i64 = if bottom < height as i64 {
            bottom
        } else {
            height as i64
        };
        let clipped_width: i64 = if right > left {
            right - left
        } else {
            0
        };
        let clipped_height: i64 = if bottom > top {
            bottom - top
        } else {
            0
        };
        Rect {
            x: left as i32,
            y: top as i32,
            width: clipped_width as i32,
            height: clipped_height as i32,
        }
    }

    /// The rectangle grown by `amount` on each side.
    pub fn inflated(self, amount: i32) -> (rect: Rect)
        ensures
            rect == inflate(self, amount as int),
    {
        Rect {
            x: clamp_i64(self.x as i64 - amount as i64),
            y: clamp_i64(self.y as i64 - amount as i64),
            width: clamp_i64(self.width as i64 + 2 * amount as i64),
            height: clamp_i64(self.height as i64 + 2 * amount as i64),
        }
    }

    /// The smallest rectangle that holds both.
    pub fn union(self, other: Rect) -> (rect: Rect)
        ensures
            rect == bounding(self, other),
    {
        let left: i32 = if self.x <= other.x {
            self.x
        } else {
            other.x
        };
        let top: i32 = if self.y <= other.y {
            self.y
        } else {
            other.y
        };
        let self_right: i64 = self.x as i64 + self.width as i64;
        let other_right: i64 = other.x as i64 + other.width as i64;
        let self_bottom: i64 = self.y as i64 + self.height as i64;
        let other_bottom: i64 = other.y as i64 + other.height as i64;
        let right: i64 = if self_right >= other_right {
            self_right
        } else {
            other_right
        };
        let bottom: i64 = if self_bottom >= other_bottom {
            self_bottom
        } else {
            other_bottom
        };
        Rect {
            x: left,
            y: top,
            width: clamp_i64(right - left as i64),
            height: clamp_i64(bottom - top as i64),
        }
    }
}

/// The part of a rectangle that lies in a frame.
pub open spec fn clip(rect: Rect, width: int, height: int) -> Rect {
    let left = max_int(rect.x as int, 0);
    let top = max_int(rect.y as int, 0);
    let right = min_int(rect.x + rect.width, width);
    let bottom = min_int(rect.y + rect.height, height);
    Rect {
        x: left as i32,
        y: top as i32,
        width: max_int(right - left, 0) as i32,
        height: max_int(bottom - top, 0) as i32,
    }
}

/// A rectangle grown on each side.
pub open spec fn inflate(rect: Rect, amount: int) -> Rect {
    Rect {
        x: clamped(rect.x - amount),
        y: clamped(rect.y - amount),
        width: clamped(rect.width + 2 * amount),
        height: clamped(rect.height + 2 * amount),
    }
}

/// The smallest rectangle that holds both.
pub open spec fn bounding(a: Rect, b: Rect) -> Rect {
    let left = min_int(a.x as int, b.x as int);
    let top = min_int(a.y as int, b.y as int);
    Rect {
        x: left as i32,
        y: top as i32,
        width: clamped(max_int(a.x + a.width, b.x + b.width) - left),
        height: clamped(max_int(a.y + a.height, b.y + b.height) - top),
    }
}

#[derive(Debug, Clone, Copy, PartialEq, Eq, Structural)]
pub struct BorderStyle {
    pub color: ClearColor,
    pub thickness: i32,
}

impl BorderStyle {
    pub fn new(color: ClearColor, thickness: i32) -> (style: Self)
        ensures
            style == (BorderStyle { color, thickness }),
    {
        Self { color, thickness }
    }
}

/// How a rounded rectangle is drawn.
#[derive(Debug, Clone, Copy, PartialEq, Eq, Structural)]
pub struct PillStyle {
    pub fill: ClearColor,
    pub radius: Option<i32>,
    pub border: Option<BorderStyle>,
    pub shadow: Option<ShadowStyle>,
}

/// A clipped rectangle covers the pixels of the frame that the rectangle covers, and no others.
pub proof fn law_clipping_keeps_the_visible_part(rect: Rect, width: int, height: int, x: int, y: int)
    requires
        0 <= width <= i32::MAX,
        0 <= height <= i32::MAX,
    ensures
        covers(clip(rect, width, height), x, y) <==> covers(rect, x, y) && 0 <= x < width && 0 <= y
            < height,
{
}

/// The rectangle around two others holds every point of both, and lies in every other rectangle
/// that does.
pub proof fn law_bounding_rectangle_is_the_least(a: Rect, b: Rect, other: Rect, x: int, y: int)
    requires
        a.width >= 0 && a.height >= 0 && b.width >= 0 && b.height >= 0,
        max_int(a.x + a.width, b.x + b.width) - min_int(a.x as int, b.x as int) <= i32::MAX,
        max_int(a.y + a.height, b.y + b.height) - min_int(a.y as int, b.y as int) <= i32::MAX,
    ensures
        covers(a, x, y) || covers(b, x, y) ==> covers(bounding(a, b), x, y),
        bounding(a, b) == bounding(b, a),
        other.x <= a.x && other.x <= b.x && other.y <= a.y && other.y <= b.y && a.x + a.width
            <= other.x + other.width && b.x + b.width <= other.x + other.width && a.y + a.height
            <= other.y + other.height && b.y + b.height <= other.y + other.height ==> (covers(
            bounding(a, b),
            x,
            y,
        ) ==> covers(other, x, y)),
{
}

/// An inflated rectangle reaches as much further on every side, and a rectangle that is inflated
/// and deflated again is the same.
pub proof fn law_inflating_reaches_further(rect: Rect, amount: int, x: int, y: int)
    requires
        i32::MIN <= rect.x - amount <= i32::MAX,
        i32::MIN <= rect.y - amount <= i32::MAX,
        i32::MIN <= rect.width + 2 * amount <= i32::MAX,
        i32::MIN <= rect.height + 2 * amount <= i32::MAX,
    ensures
        covers(inflate(rect, amount), x, y) <==> rect.x - amount <= x < rect.x + rect.width + amount
            && rect.y - amount <= y < rect.y + rect.height + amount,
        inflate(inflate(rect, amount), -amount) == rect,
{
}

/// Halves are cut towards zero, values out of range end at its border, and extents that fit are
/// kept.
pub proof fn law_values_are_cut_to_range(value: int, limit: u32)
    ensures
        value >= 0 ==> 2 * half(value) == value || 2 * half(value) == value - 1,
        half(-value) == -half(value),
        i32::MIN <= value <= i32::MAX ==> clamped(value) == value,
        value > i32::MAX ==> clamped(value) == i32::MAX,
        value < i32::MIN ==> clamped(value) == i32::MIN,
        limit <= i32::MAX ==> signed_extent(limit) == limit,
{
}

} // verus!
