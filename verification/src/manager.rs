//! The window manager: an ordered collection of windows (index 0 bottom-most,
//! last index top-most) together with the pointer-gesture state machine that
//! moves, resizes and refocuses them.

use vstd::prelude::*;
use crate::geom::{Rect, contains_pt};
use crate::window::{
    Window, Resize, set_focused, released, gesture_active, apply_grab, dragged, eff_offset,
};

verus! {

/// Owns every window; sequence order is z-order (last = top-most), and
/// `current_offset` is the horizontal grab offset captured at the start of a
/// move gesture.
pub struct WindowManager {
    pub windows: Vec<Window>,
    pub current_offset: Option<u16>,
}

// ---------------------------------------------------------------------------
// The mathematical model: transformations of the window sequence.
// ---------------------------------------------------------------------------

/// Every window with its focus flag cleared.
pub open spec fn unfocus_all(ws: Seq<Window>) -> Seq<Window> {
    ws.map_values(|w: Window| set_focused(w, false))
}

/// Every window with its gesture flags cleared: the effect of a pointer
/// release.
pub open spec fn release_all(ws: Seq<Window>) -> Seq<Window> {
    ws.map_values(|w: Window| released(w))
}

/// The sequence after focusing the window at `i`: everything is unfocused,
/// then that window is pulled out of its slot and re-appended, focused, at
/// the end — making it both the sole focus holder and the top-most window.
pub open spec fn after_focus(ws: Seq<Window>, i: int) -> Seq<Window> {
    unfocus_all(ws).remove(i).push(set_focused(ws[i], true))
}

/// The index of the top-most window containing `(x, y)`, scanning from the
/// end of the sequence, or `None` when no window contains the point.
pub open spec fn top_hit(ws: Seq<Window>, x: u16, y: u16) -> Option<int>
    decreases ws.len(),
{
    if ws.len() == 0 {
        None
    } else if contains_pt(ws.last().area, x, y) {
        Some(ws.len() - 1)
    } else {
        top_hit(ws.drop_last(), x, y)
    }
}

/// The lowest index whose window is focused, if any.
pub open spec fn first_focused(ws: Seq<Window>) -> Option<int>
    decreases ws.len(),
{
    if ws.len() == 0 {
        None
    } else if ws.first().focused {
        Some(0int)
    } else {
        match first_focused(ws.drop_first()) {
            Some(i) => Some(i + 1),
            None => None,
        }
    }
}

/// The lowest index whose window carries an active gesture, if any.
pub open spec fn first_gesture(ws: Seq<Window>) -> Option<int>
    decreases ws.len(),
{
    if ws.len() == 0 {
        None
    } else if gesture_active(ws.first()) {
        Some(0int)
    } else {
        match first_gesture(ws.drop_first()) {
            Some(i) => Some(i + 1),
            None => None,
        }
    }
}

/// The slot that a cyclic focus advance targets: the slot right after the
/// focused one, wrapping to 0 past the end; 0 when nothing is focused.
pub open spec fn next_focus_target(ws: Seq<Window>) -> int {
    match first_focused(ws) {
        Some(i) => if i + 1 < ws.len() {
            i + 1
        } else {
            0
        },
        None => 0,
    }
}

/// The sequence after a button press at `(x, y)` has hit the window at `i`:
/// that window is focused (and so moved to the end), then the click point is
/// classified against its borders to start a move or resize gesture.
pub open spec fn after_mouse_down(ws: Seq<Window>, i: int, x: u16, y: u16) -> Seq<Window> {
    let f = after_focus(ws, i);
    f.update(f.len() - 1, apply_grab(f[f.len() - 1], x, y))
}

// ---------------------------------------------------------------------------
// The invariants the manager maintains.
// ---------------------------------------------------------------------------

/// No two distinct windows are focused.
pub open spec fn at_most_one_focused(ws: Seq<Window>) -> bool {
    forall|p: int, q: int|
        0 <= p < ws.len() && 0 <= q < ws.len() && ws[p].focused && ws[q].focused ==> p == q
}

/// Some window is focused.
pub open spec fn has_focused(ws: Seq<Window>) -> bool {
    exists|p: int| 0 <= p < ws.len() && ws[p].focused
}

/// Exactly one window is focused whenever any window exists.
pub open spec fn exactly_one_focused(ws: Seq<Window>) -> bool {
    at_most_one_focused(ws) && (ws.len() > 0 ==> has_focused(ws))
}

/// No two distinct windows carry an active gesture.
pub open spec fn at_most_one_gesture(ws: Seq<Window>) -> bool {
    forall|p: int, q: int|
        0 <= p < ws.len() && 0 <= q < ws.len() && gesture_active(ws[p]) && gesture_active(ws[q])
            ==> p == q
}

/// No window is simultaneously held and resizing.
pub open spec fn held_resize_exclusive(ws: Seq<Window>) -> bool {
    forall|p: int| 0 <= p < ws.len() ==> !(ws[p].held && ws[p].resizing is Some)
}

/// Gesture exclusivity: at most one active gesture manager-wide, and never
/// both kinds on one window.
pub open spec fn single_gesture(ws: Seq<Window>) -> bool {
    at_most_one_gesture(ws) && held_resize_exclusive(ws)
}

/// Every window is at least 2 cells wide and 2 cells tall.
pub open spec fn min_sized(ws: Seq<Window>) -> bool {
    forall|p: int| 0 <= p < ws.len() ==> ws[p].area.width >= 2 && ws[p].area.height >= 2
}

// ---------------------------------------------------------------------------
// Helper lemmas about the model.
// ---------------------------------------------------------------------------

/// How `after_focus` rearranges the sequence, slot by slot.
proof fn lemma_after_focus_index(ws: Seq<Window>, i: int)
    requires
        0 <= i < ws.len(),
    ensures
        after_focus(ws, i).len() == ws.len(),
        after_focus(ws, i)[ws.len() - 1] == set_focused(ws[i], true),
        forall|j: int| 0 <= j < i ==> after_focus(ws, i)[j] == set_focused(ws[j], false),
        forall|j: int|
            i <= j < ws.len() - 1 ==> after_focus(ws, i)[j] == set_focused(ws[j + 1], false),
{
}

/// `top_hit` returns the index of a window containing the point with nothing
/// containing it above, and `None` exactly when no window contains it.
pub proof fn lemma_top_hit(ws: Seq<Window>, x: u16, y: u16)
    ensures
        (match top_hit(ws, x, y) {
            Some(i) => 0 <= i < ws.len() && contains_pt(ws[i].area, x, y) && (forall|j: int|
                i < j < ws.len() ==> !contains_pt(ws[j].area, x, y)),
            None => forall|j: int| 0 <= j < ws.len() ==> !contains_pt(ws[j].area, x, y),
        }),
    decreases ws.len(),
{
    if ws.len() == 0 {
    } else if contains_pt(ws.last().area, x, y) {
    } else {
        lemma_top_hit(ws.drop_last(), x, y);
        assert(forall|j: int| 0 <= j < ws.len() - 1 ==> ws.drop_last()[j] == ws[j]);
    }
}

/// `first_focused` returns the lowest focused index, and `None` exactly when
/// nothing is focused.
pub proof fn lemma_first_focused(ws: Seq<Window>)
    ensures
        (match first_focused(ws) {
            Some(i) => 0 <= i < ws.len() && ws[i].focused && (forall|j: int|
                0 <= j < i ==> !ws[j].focused),
            None => forall|j: int| 0 <= j < ws.len() ==> !ws[j].focused,
        }),
    decreases ws.len(),
{
    if ws.len() == 0 {
    } else if ws.first().focused {
    } else {
        let d = ws.drop_first();
        lemma_first_focused(d);
        assert(!ws[0].focused);
        match first_focused(d) {
            Some(i) => {
                assert(d[i] == ws[i + 1]);
                assert forall|j: int| 0 <= j < i + 1 implies !ws[j].focused by {
                    if j > 0 {
                        assert(d[j - 1] == ws[j]);
                    }
                }
            },
            None => {
                assert forall|j: int| 0 <= j < ws.len() implies !ws[j].focused by {
                    if j > 0 {
                        assert(d[j - 1] == ws[j]);
                    }
                }
            },
        }
    }
}

/// `first_gesture` returns the lowest gesture-carrying index, and `None`
/// exactly when no gesture is active.
pub proof fn lemma_first_gesture(ws: Seq<Window>)
    ensures
        (match first_gesture(ws) {
            Some(i) => 0 <= i < ws.len() && gesture_active(ws[i]) && (forall|j: int|
                0 <= j < i ==> !gesture_active(ws[j])),
            None => forall|j: int| 0 <= j < ws.len() ==> !gesture_active(ws[j]),
        }),
    decreases ws.len(),
{
    if ws.len() == 0 {
    } else if gesture_active(ws.first()) {
    } else {
        let d = ws.drop_first();
        lemma_first_gesture(d);
        assert(!gesture_active(ws[0]));
        match first_gesture(d) {
            Some(i) => {
                assert(d[i] == ws[i + 1]);
                assert forall|j: int| 0 <= j < i + 1 implies !gesture_active(ws[j]) by {
                    if j > 0 {
                        assert(d[j - 1] == ws[j]);
                    }
                }
            },
            None => {
                assert forall|j: int| 0 <= j < ws.len() implies !gesture_active(ws[j]) by {
                    if j > 0 {
                        assert(d[j - 1] == ws[j]);
                    }
                }
            },
        }
    }
}

impl WindowManager {
    /// An empty manager: no windows, no captured grab offset.
    pub fn new() -> (r: WindowManager)
        ensures
            r.windows@ == Seq::<Window>::empty(),
            r.current_offset is None,
    {
        WindowManager { windows: Vec::new(), current_offset: None }
    }

    /// Appends `window` as the new top-most window and hands it the focus:
    /// every existing window is unfocused first, so exactly one window is
    /// focused afterwards.
    pub fn add_window(&mut self, window: Window)
        ensures
            final(self).windows@ == unfocus_all(old(self).windows@).push(
                set_focused(window, true),
            ),
            final(self).current_offset == old(self).current_offset,
            exactly_one_focused(final(self).windows@),
            min_sized(old(self).windows@) && window.area.width >= 2 && window.area.height >= 2
                ==> min_sized(final(self).windows@),
            single_gesture(old(self).windows@) && !gesture_active(window) ==> single_gesture(
                final(self).windows@,
            ),
    {
        let ghost ws0 = self.windows@;
        let n: usize = self.windows.len();
        let mut i: usize = 0;
        while i < n
            invariant
                n == ws0.len(),
                i <= n,
                self.windows@.len() == ws0.len(),
                forall|j: int| 0 <= j < i ==> self.windows@[j] == set_focused(ws0[j], false),
                forall|j: int| i <= j < ws0.len() ==> self.windows@[j] == ws0[j],
                self.current_offset == old(self).current_offset,
            decreases n - i,
        {
            self.windows[i].focused = false;
            i += 1;
        }
        let mut w = window;
        w.focused = true;
        self.windows.push(w);
        proof {
            assert(self.windows@ =~= unfocus_all(ws0).push(set_focused(window, true)));
            let fin = self.windows@;
            assert(fin[fin.len() - 1].focused);
            assert(has_focused(fin));
        }
    }

    /// The index of the top-most window containing `(x, y)`, if any: the
    /// hit-test scans from the end of the sequence, so of two overlapping
    /// windows the one drawn later wins.
    pub fn get_window_at_cords(&self, x: u16, y: u16) -> (r: Option<usize>)
        ensures
            (match r {
                Some(i) => top_hit(self.windows@, x, y) == Some(i as int),
                None => top_hit(self.windows@, x, y) is None,
            }),
    {
        let ghost ws = self.windows@;
        let mut i: usize = self.windows.len();
        proof {
            assert(ws.take(ws.len() as int) =~= ws);
        }
        while i > 0
            invariant
                i <= ws.len(),
                self.windows@ == ws,
                top_hit(ws, x, y) == top_hit(ws.take(i as int), x, y),
            decreases i,
        {
            i = i - 1;
            let hit = self.windows[i].area.contains(x, y);
            proof {
                assert(ws.take(i + 1).len() == i + 1);
                assert(ws.take(i + 1).last() == ws[i as int]);
                assert(ws.take(i + 1).drop_last() =~= ws.take(i as int));
            }
            if hit {
                return Some(i);
            }
        }
        proof {
            assert(ws.take(0).len() == 0);
        }
        None
    }

    /// Unfocuses every window, then pulls the window at `index` out of its
    /// slot and re-appends it, focused, at the end: it becomes the sole focus
    /// holder and the top-most (hit-test-priority) window.
    pub fn focus_window(&mut self, index: usize)
        requires
            index < old(self).windows@.len(),
        ensures
            final(self).windows@ == after_focus(old(self).windows@, index as int),
            final(self).current_offset == old(self).current_offset,
            exactly_one_focused(final(self).windows@),
            min_sized(old(self).windows@) ==> min_sized(final(self).windows@),
            single_gesture(old(self).windows@) ==> single_gesture(final(self).windows@),
    {
        let ghost ws0 = self.windows@;
        let n: usize = self.windows.len();
        let mut i: usize = 0;
        while i < n
            invariant
                n == ws0.len(),
                i <= n,
                index < ws0.len(),
                self.windows@.len() == ws0.len(),
                forall|j: int| 0 <= j < i ==> self.windows@[j] == set_focused(ws0[j], false),
                forall|j: int| i <= j < ws0.len() ==> self.windows@[j] == ws0[j],
                self.current_offset == old(self).current_offset,
            decreases n - i,
        {
            self.windows[i].focused = false;
            i += 1;
        }
        proof {
            assert(self.windows@ =~= unfocus_all(ws0));
        }
        let mut w = self.windows.remove(index);
        w.focused = true;
        self.windows.push(w);
        proof {
            assert(self.windows@ =~= after_focus(ws0, index as int));
            lemma_after_focus_index(ws0, index as int);
            let fin = self.windows@;
            assert(fin[fin.len() - 1].focused);
            assert(has_focused(fin));
            assert forall|p: int, q: int|
                0 <= p < fin.len() && 0 <= q < fin.len() && fin[p].focused && fin[q].focused
                    implies p == q by {
                if p < fin.len() - 1 {
                    assert(!fin[p].focused);
                }
                if q < fin.len() - 1 {
                    assert(!fin[q].focused);
                }
            }
            assert(min_sized(ws0) ==> min_sized(fin)) by {
                if min_sized(ws0) {
                    assert forall|p: int| 0 <= p < fin.len() implies fin[p].area.width >= 2
                        && fin[p].area.height >= 2 by {
                        if p < index {
                            assert(fin[p] == set_focused(ws0[p], false));
                        } else if p < fin.len() - 1 {
                            assert(fin[p] == set_focused(ws0[p + 1], false));
                        } else {
                            assert(fin[p] == set_focused(ws0[index as int], true));
                        }
                    }
                }
            }
            assert(single_gesture(ws0) ==> single_gesture(fin)) by {
                if single_gesture(ws0) {
                    assert forall|p: int| 0 <= p < fin.len() implies !(fin[p].held
                        && fin[p].resizing is Some) by {
                        lemma_focus_slot(ws0, index as int, p);
                    }
                    assert forall|p: int, q: int|
                        0 <= p < fin.len() && 0 <= q < fin.len() && gesture_active(fin[p])
                            && gesture_active(fin[q]) implies p == q by {
                        lemma_focus_slot(ws0, index as int, p);
                        lemma_focus_slot(ws0, index as int, q);
                    }
                }
            }
        }
    }

    /// Advances focus cyclically: the window right after the focused one in
    /// z-order gains focus (wrapping to slot 0 past the end), slot 0 gains it
    /// when nothing was focused, and an empty manager is left untouched.
    pub fn next_window(&mut self)
        ensures
            old(self).windows@.len() == 0 ==> *final(self) == *old(self),
            old(self).windows@.len() > 0 ==> final(self).windows@ == after_focus(
                old(self).windows@,
                next_focus_target(old(self).windows@),
            ) && final(self).current_offset == old(self).current_offset,
            exactly_one_focused(final(self).windows@),
            min_sized(old(self).windows@) ==> min_sized(final(self).windows@),
            single_gesture(old(self).windows@) ==> single_gesture(final(self).windows@),
    {
        let ghost ws = self.windows@;
        let n: usize = self.windows.len();
        if n == 0 {
            return;
        }
        let mut i: usize = 0;
        while i < n && !self.windows[i].focused
            invariant
                n == ws.len(),
                i <= n,
                self.windows@ == ws,
                self.current_offset == old(self).current_offset,
                forall|j: int| 0 <= j < i ==> !ws[j].focused,
            decreases n - i,
        {
            i += 1;
        }
        let target: usize = if i < n {
            if i + 1 < n {
                i + 1
            } else {
                0
            }
        } else {
            0
        };
        proof {
            lemma_first_focused(ws);
            if i < n {
                assert(ws[i as int].focused);
                assert(first_focused(ws) == Some(i as int));
            } else {
                assert(first_focused(ws) is None);
            }
            assert(target as int == next_focus_target(ws));
        }
        self.focus_window(target);
    }

    /// A left-button press at `(x, y)`: a miss leaves the manager untouched;
    /// a hit focuses (and so raises) the hit window and classifies the click
    /// against its borders — the title row grabs it for a move and captures
    /// the horizontal grab offset, any other border cell starts the matching
    /// resize gesture, and an interior click only focuses.
    pub fn left_mouse_down(&mut self, x: u16, y: u16)
        ensures
            top_hit(old(self).windows@, x, y) is None ==> *final(self) == *old(self),
            (match top_hit(old(self).windows@, x, y) {
                Some(i) => {
                    &&& final(self).windows@ == after_mouse_down(old(self).windows@, i, x, y)
                    &&& final(self).current_offset == (if y == old(self).windows@[i].area.y {
                        Some((x - old(self).windows@[i].area.x) as u16)
                    } else {
                        old(self).current_offset
                    })
                },
                None => true,
            }),
            exactly_one_focused(old(self).windows@) ==> exactly_one_focused(final(self).windows@),
            min_sized(old(self).windows@) ==> min_sized(final(self).windows@),
            single_gesture(old(self).windows@) && first_gesture(old(self).windows@) is None
                ==> single_gesture(final(self).windows@),
    {
        let ghost ws0 = self.windows@;
        proof {
            lemma_top_hit(ws0, x, y);
        }
        let hit = self.get_window_at_cords(x, y);
        match hit {
            None => {},
            Some(index) => {
                self.focus_window(index);
                proof {
                    lemma_after_focus_index(ws0, index as int);
                }
                let ghost f = after_focus(ws0, index as int);
                let ghost gi = index as int;
                let n: usize = self.windows.len();
                let a = self.windows[n - 1].area;
                proof {
                    assert(a == ws0[gi].area);
                    assert(contains_pt(a, x, y));
                }
                if y == a.y {
                    self.windows[n - 1].held = true;
                    self.current_offset = Some(x - a.x);
                } else if y - a.y == a.height - 1 {
                    if x == a.x {
                        self.windows[n - 1].resizing = Some(Resize::DownLeft);
                    } else if x - a.x == a.width - 1 {
                        self.windows[n - 1].resizing = Some(Resize::DownRight);
                    } else {
                        self.windows[n - 1].resizing = Some(Resize::Down);
                    }
                } else if x == a.x {
                    self.windows[n - 1].resizing = Some(Resize::Left);
                } else if x - a.x == a.width - 1 {
                    self.windows[n - 1].resizing = Some(Resize::Right);
                } else {
                }
                proof {
                    assert(self.windows@ =~= after_mouse_down(ws0, gi, x, y));
                    let fin = self.windows@;
                    assert(fin[n - 1].focused);
                    assert(has_focused(fin));
                    assert forall|p: int| 0 <= p < fin.len() && p < n - 1 implies fin[p]
                        == f[p] by {}
                    if exactly_one_focused(ws0) {
                        assert forall|p: int, q: int|
                            0 <= p < fin.len() && 0 <= q < fin.len() && fin[p].focused
                                && fin[q].focused implies p == q by {
                            if p < fin.len() - 1 {
                                assert(!f[p].focused);
                            }
                            if q < fin.len() - 1 {
                                assert(!f[q].focused);
                            }
                        }
                    }
                    if min_sized(ws0) {
                        assert forall|p: int| 0 <= p < fin.len() implies fin[p].area.width >= 2
                            && fin[p].area.height >= 2 by {
                            lemma_focus_slot(ws0, gi, p);
                            assert(fin[p].area == f[p].area);
                        }
                    }
                    if single_gesture(ws0) && first_gesture(ws0) is None {
                        lemma_first_gesture(ws0);
                        assert forall|p: int| 0 <= p < fin.len() && p < n - 1 implies !gesture_active(
                            fin[p],
                        ) by {
                            lemma_focus_slot(ws0, gi, p);
                        }
                        assert(!(fin[n - 1].held && fin[n - 1].resizing is Some)) by {
                            lemma_focus_slot(ws0, gi, n - 1);
                        }
                        assert(single_gesture(fin));
                    }
                }
            },
        }
    }

    /// A left-button drag to `(x, y)`: acts on the window carrying the
    /// active gesture — a held window moves (its left edge follows the
    /// pointer minus the captured offset, its top edge snaps to the pointer
    /// row), a resizing window's rectangle follows the pointer in its
    /// gesture's direction with width and height clamped to the 2-cell
    /// floor. With no active gesture the drag is ignored.
    pub fn left_mouse_drag(&mut self, x: u16, y: u16)
        ensures
            first_gesture(old(self).windows@) is None ==> *final(self) == *old(self),
            (match first_gesture(old(self).windows@) {
                Some(i) => final(self).windows@ == old(self).windows@.update(
                    i,
                    dragged(old(self).windows@[i], eff_offset(old(self).current_offset), x, y),
                ),
                None => true,
            }),
            final(self).current_offset == old(self).current_offset,
            exactly_one_focused(old(self).windows@) ==> exactly_one_focused(final(self).windows@),
            min_sized(old(self).windows@) ==> min_sized(final(self).windows@),
            single_gesture(old(self).windows@) ==> single_gesture(final(self).windows@),
    {
        let ghost ws0 = self.windows@;
        let n: usize = self.windows.len();
        let offset: u16 = match self.current_offset {
            Some(o) => o,
            None => 0,
        };
        let mut i: usize = 0;
        while i < n && !self.windows[i].held && !self.windows[i].resizing.is_some()
            invariant
                n == ws0.len(),
                i <= n,
                self.windows@ == ws0,
                self.current_offset == old(self).current_offset,
                forall|j: int| 0 <= j < i ==> !gesture_active(ws0[j]),
            decreases n - i,
        {
            i += 1;
        }
        proof {
            lemma_first_gesture(ws0);
        }
        if i < n {
            proof {
                assert(gesture_active(ws0[i as int]));
                assert(first_gesture(ws0) == Some(i as int));
            }
            let ghost gi = i as int;
            let ghost dw = dragged(ws0[gi], eff_offset(old(self).current_offset), x, y);
            let a = self.windows[i].area;
            if self.windows[i].held {
                let r = Rect {
                    x: x.saturating_sub(offset),
                    y: y,
                    width: a.width,
                    height: a.height,
                };
                self.windows[i].area = r;
            } else {
                match self.windows[i].resizing {
                    Some(Resize::Left) => {
                        let r = a.resized_left(x);
                        self.windows[i].area = r;
                    },
                    Some(Resize::Right) => {
                        let r = a.resized_right(x);
                        self.windows[i].area = r;
                    },
                    Some(Resize::Down) => {
                        let r = a.resized_down(y);
                        self.windows[i].area = r;
                    },
                    Some(Resize::DownLeft) => {
                        let r = a.resized_left(x).resized_down(y);
                        self.windows[i].area = r;
                    },
                    Some(Resize::DownRight) => {
                        let r = a.resized_right(x).resized_down(y);
                        self.windows[i].area = r;
                    },
                    None => {},
                }
            }
            proof {
                assert(self.windows@ =~= ws0.update(gi, dw));
                let fin = self.windows@;
                assert forall|p: int| 0 <= p < fin.len() implies fin[p].focused == ws0[p].focused
                    && fin[p].held == ws0[p].held && fin[p].resizing == ws0[p].resizing by {}
                if exactly_one_focused(ws0) {
                    if ws0.len() > 0 {
                        let w = choose|p: int| 0 <= p < ws0.len() && ws0[p].focused;
                        assert(fin[w].focused);
                    }
                }
                if min_sized(ws0) {
                    assert forall|p: int| 0 <= p < fin.len() implies fin[p].area.width >= 2
                        && fin[p].area.height >= 2 by {}
                }
            }
        } else {
            proof {
                assert(first_gesture(ws0) is None);
            }
        }
    }

    /// A pointer release: unconditionally clears every window's gesture
    /// flags and drops the captured grab offset. Deliberately global and
    /// idempotent, so a release with no matching prior press is safe.
    pub fn let_windows_go(&mut self)
        ensures
            final(self).windows@ == release_all(old(self).windows@),
            final(self).current_offset is None,
            first_gesture(final(self).windows@) is None,
            single_gesture(final(self).windows@),
            exactly_one_focused(old(self).windows@) ==> exactly_one_focused(final(self).windows@),
            min_sized(old(self).windows@) ==> min_sized(final(self).windows@),
    {
        let ghost ws0 = self.windows@;
        let n: usize = self.windows.len();
        let mut i: usize = 0;
        while i < n
            invariant
                n == ws0.len(),
                i <= n,
                self.windows@.len() == n,
                forall|j: int| 0 <= j < i ==> self.windows@[j] == released(ws0[j]),
                forall|j: int| i <= j < n ==> self.windows@[j] == ws0[j],
            decreases n - i,
        {
            self.windows[i].held = false;
            self.windows[i].resizing = None;
            i += 1;
        }
        self.current_offset = None;
        proof {
            assert(self.windows@ =~= release_all(ws0));
            let fin = self.windows@;
            lemma_first_gesture(fin);
            match first_gesture(fin) {
                Some(g) => {
                    assert(gesture_active(fin[g]));
                    assert(fin[g] == released(ws0[g]));
                    assert(false);
                },
                None => {},
            }
            if exactly_one_focused(ws0) && ws0.len() > 0 {
                let w = choose|p: int| 0 <= p < ws0.len() && ws0[p].focused;
                assert(fin[w].focused);
            }
        }
    }
}

/// A pointer release is idempotent: releasing every window a second time
/// leaves the same sequence as releasing once. Together with the contract of
/// `let_windows_go` — the windows become `release_all` of what they were and
/// the offset becomes `None` — this says a repeated release is a no-op.
pub proof fn lemma_release_idempotent(ws: Seq<Window>)
    ensures
        release_all(release_all(ws)) == release_all(ws),
{
    assert(release_all(release_all(ws)) =~= release_all(ws));
}

/// Focusing the window at `i` moves it to the end of the sequence, and a
/// hit-test at any point inside its rectangle afterwards resolves to that
/// window, now sitting in the top-most slot.
pub proof fn lemma_focus_raises(ws: Seq<Window>, i: int, x: u16, y: u16)
    requires
        0 <= i < ws.len(),
        contains_pt(ws[i].area, x, y),
    ensures
        after_focus(ws, i).len() == ws.len(),
        after_focus(ws, i)[ws.len() - 1] == set_focused(ws[i], true),
        top_hit(after_focus(ws, i), x, y) == Some(ws.len() - 1),
{
    lemma_after_focus_index(ws, i);
    let f = after_focus(ws, i);
    assert(f.last() == set_focused(ws[i], true));
    assert(contains_pt(f.last().area, x, y));
}

/// Which original slot the window at slot `p` of `after_focus(ws, i)` came
/// from: its area and gesture flags are carried over untouched.
proof fn lemma_focus_slot(ws: Seq<Window>, i: int, p: int)
    requires
        0 <= i < ws.len(),
        0 <= p < ws.len(),
    ensures
        ({
            let src = if p == ws.len() - 1 {
                i
            } else if p < i {
                p
            } else {
                p + 1
            };
            &&& 0 <= src < ws.len()
            &&& after_focus(ws, i)[p].held == ws[src].held
            &&& after_focus(ws, i)[p].resizing == ws[src].resizing
            &&& after_focus(ws, i)[p].area == ws[src].area
        }),
{
    lemma_after_focus_index(ws, i);
}

} // verus!
