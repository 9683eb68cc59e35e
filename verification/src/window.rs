//! The window entity: geometry plus interaction flags for one panel.

use vstd::prelude::*;
use crate::geom::Rect;

verus! {

/// The direction of an active resize gesture, named after the window edge or
/// corner being dragged.
#[derive(Clone, Copy, PartialEq, Eq, Structural, Debug)]
pub enum Resize {
    Left,
    Right,
    Down,
    DownLeft,
    DownRight,
}

/// One rectangular panel: an immutable title, a mutable cell rectangle, and
/// the interaction flags the manager maintains.
#[derive(PartialEq, Debug)]
pub struct Window {
    pub title: String,
    pub area: Rect,
    pub focused: bool,
    pub held: bool,
    pub resizing: Option<Resize>,
}

/// `w` with its focus flag replaced and everything else kept.
pub open spec fn set_focused(w: Window, f: bool) -> Window {
    Window { title: w.title, area: w.area, focused: f, held: w.held, resizing: w.resizing }
}

/// `w` with its rectangle replaced and everything else kept.
pub open spec fn set_area(w: Window, a: Rect) -> Window {
    Window { title: w.title, area: a, focused: w.focused, held: w.held, resizing: w.resizing }
}

/// `w` with both gesture flags cleared: the effect of a pointer release.
pub open spec fn released(w: Window) -> Window {
    Window { title: w.title, area: w.area, focused: w.focused, held: false, resizing: None }
}

/// Whether a gesture (move or resize) is active on `w`.
pub open spec fn gesture_active(w: Window) -> bool {
    w.held || w.resizing is Some
}

/// `w` grabbed for a move gesture.
pub open spec fn set_held(w: Window) -> Window {
    Window { title: w.title, area: w.area, focused: w.focused, held: true, resizing: w.resizing }
}

/// `w` grabbed for a resize gesture in direction `d`.
pub open spec fn set_resizing(w: Window, d: Resize) -> Window {
    Window { title: w.title, area: w.area, focused: w.focused, held: w.held, resizing: Some(d) }
}

/// Which resize gesture a border click at `(x, y)` starts on a window with
/// rectangle `a`, for clicks below the title row: the bottom row yields the
/// downward directions (split at the two corners), otherwise the left or
/// right border column yields a horizontal resize, and an interior click
/// yields none.
pub open spec fn resize_dir(a: crate::geom::Rect, x: u16, y: u16) -> Option<Resize> {
    if y == a.y + a.height - 1 {
        if x == a.x {
            Some(Resize::DownLeft)
        } else if x == a.x + a.width - 1 {
            Some(Resize::DownRight)
        } else {
            Some(Resize::Down)
        }
    } else if x == a.x {
        Some(Resize::Left)
    } else if x == a.x + a.width - 1 {
        Some(Resize::Right)
    } else {
        None
    }
}

/// The window after a button press at `(x, y)` inside it has classified the
/// click: the title row starts a move, a border starts a resize, and an
/// interior click leaves the window as it is (focused but not grabbed).
pub open spec fn apply_grab(w: Window, x: u16, y: u16) -> Window {
    if y == w.area.y {
        set_held(w)
    } else {
        match resize_dir(w.area, x, y) {
            Some(d) => set_resizing(w, d),
            None => w,
        }
    }
}

/// The grab offset in effect during a drag: the captured one, or zero when
/// none was captured.
pub open spec fn eff_offset(o: Option<u16>) -> u16 {
    match o {
        Some(v) => v,
        None => 0,
    }
}

/// The window after a drag to `(x, y)` lands on it: a held window moves,
/// a resizing window's rectangle is resized in its gesture's direction, and
/// a window with no active gesture is untouched.
pub open spec fn dragged(w: Window, off: u16, x: u16, y: u16) -> Window {
    if w.held {
        set_area(w, crate::geom::moved_rect(w.area, off, x, y))
    } else {
        match w.resizing {
            Some(Resize::Left) => set_area(w, crate::geom::left_resized(w.area, x)),
            Some(Resize::Right) => set_area(w, crate::geom::right_resized(w.area, x)),
            Some(Resize::Down) => set_area(w, crate::geom::down_resized(w.area, y)),
            Some(Resize::DownLeft) => set_area(
                w,
                crate::geom::down_resized(crate::geom::left_resized(w.area, x), y),
            ),
            Some(Resize::DownRight) => set_area(
                w,
                crate::geom::down_resized(crate::geom::right_resized(w.area, x), y),
            ),
            None => w,
        }
    }
}

} // verus!
