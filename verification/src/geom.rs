//! Rectangles in integer terminal cells, and point containment.

use vstd::prelude::*;

verus! {

/// An axis-aligned rectangle of terminal cells. `x`/`y` is the top-left
/// corner; the rectangle covers columns `x .. x + width` and rows
/// `y .. y + height` (right and bottom edges exclusive).
#[derive(Clone, Copy, PartialEq, Eq, Structural, Debug)]
pub struct Rect {
    pub x: u16,
    pub y: u16,
    pub width: u16,
    pub height: u16,
}

/// Standard rectangle containment: inclusive of the left/top edges,
/// exclusive of the right/bottom edges.
pub open spec fn contains_pt(a: Rect, px: u16, py: u16) -> bool {
    &&& a.x <= px < a.x + a.width
    &&& a.y <= py < a.y + a.height
}

/// A width or height clamped to the legal range: never below the 2-cell
/// floor, never above what a `u16` cell coordinate can hold.
pub open spec fn clamp_dim(v: int) -> u16 {
    if v < 2 {
        2
    } else if v > 0xffff {
        0xffff
    } else {
        v as u16
    }
}

/// `a` relocated for a move gesture: the left edge follows the pointer minus
/// the grab offset (clamped at column 0), the top edge snaps to the pointer
/// row, and the size is kept.
pub open spec fn moved_rect(a: Rect, off: u16, x: u16, y: u16) -> Rect {
    Rect { x: x.saturating_sub(off), y: y, width: a.width, height: a.height }
}

/// `a` after dragging its left edge to column `x`: the width becomes the
/// clamped distance from `x` to the old right edge, and the left edge moves
/// to `x` only when that would not push it past the right edge.
pub open spec fn left_resized(a: Rect, x: u16) -> Rect {
    let w = clamp_dim(a.x + a.width - x);
    Rect {
        x: if w > 2 || x < a.x { x } else { a.x },
        y: a.y,
        width: w,
        height: a.height,
    }
}

/// `a` after dragging its right edge to column `x`: the width becomes the
/// clamped span from the left edge through `x`.
pub open spec fn right_resized(a: Rect, x: u16) -> Rect {
    Rect { x: a.x, y: a.y, width: clamp_dim(x - a.x + 1), height: a.height }
}

/// `a` after dragging its bottom edge to row `y`: the height becomes the
/// clamped span from the top edge through `y`.
pub open spec fn down_resized(a: Rect, y: u16) -> Rect {
    Rect { x: a.x, y: a.y, width: a.width, height: clamp_dim(y - a.y + 1) }
}

impl Rect {
    /// Whether the cell `(px, py)` lies inside this rectangle.
    pub fn contains(&self, px: u16, py: u16) -> (r: bool)
        ensures
            r == contains_pt(*self, px, py),
    {
        px >= self.x && px - self.x < self.width && py >= self.y && py - self.y < self.height
    }

    /// The rectangle after a left-edge resize drag to column `x`.
    pub fn resized_left(&self, x: u16) -> (r: Rect)
        ensures
            r == left_resized(*self, x),
    {
        let right: u32 = self.x as u32 + self.width as u32;
        let d: u32 = if right > x as u32 {
            right - x as u32
        } else {
            0
        };
        let w: u16 = if d < 2 {
            2
        } else if d > 0xffff {
            0xffff
        } else {
            d as u16
        };
        let nx: u16 = if w > 2 || x < self.x {
            x
        } else {
            self.x
        };
        Rect { x: nx, y: self.y, width: w, height: self.height }
    }

    /// The rectangle after a right-edge resize drag to column `x`.
    pub fn resized_right(&self, x: u16) -> (r: Rect)
        ensures
            r == right_resized(*self, x),
    {
        let d: u16 = if x > self.x {
            x - self.x
        } else {
            0
        };
        let w: u16 = if d == 0xffff {
            0xffff
        } else if d == 0 {
            2
        } else {
            d + 1
        };
        Rect { x: self.x, y: self.y, width: w, height: self.height }
    }

    /// The rectangle after a bottom-edge resize drag to row `y`.
    pub fn resized_down(&self, y: u16) -> (r: Rect)
        ensures
            r == down_resized(*self, y),
    {
        let d: u16 = if y > self.y {
            y - self.y
        } else {
            0
        };
        let h: u16 = if d == 0xffff {
            0xffff
        } else if d == 0 {
            2
        } else {
            d + 1
        };
        Rect { x: self.x, y: self.y, width: self.width, height: h }
    }
}

} // verus!
