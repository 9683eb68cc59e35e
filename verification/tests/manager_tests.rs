use term_windows::geom::Rect;
use term_windows::manager::WindowManager;
use term_windows::window::{Resize, Window};

fn win(title: &str, x: u16, y: u16, width: u16, height: u16) -> Window {
    Window {
        title: String::from(title),
        area: Rect { x, y, width, height },
        focused: false,
        held: false,
        resizing: None,
    }
}

fn focused_count(wm: &WindowManager) -> usize {
    wm.windows.iter().filter(|w| w.focused).count()
}

fn gesture_count(wm: &WindowManager) -> usize {
    wm.windows
        .iter()
        .filter(|w| w.held || w.resizing.is_some())
        .count()
}

#[test]
fn move_scenario() {
    let mut wm = WindowManager::new();
    wm.add_window(win("a", 10, 5, 40, 10));
    wm.left_mouse_down(12, 5);
    assert!(wm.windows[0].held);
    assert_eq!(wm.current_offset, Some(2));
    wm.left_mouse_drag(20, 8);
    assert_eq!(wm.windows[0].area, Rect { x: 18, y: 8, width: 40, height: 10 });
    wm.let_windows_go();
    assert!(!wm.windows[0].held);
    assert_eq!(wm.current_offset, None);
}

#[test]
fn shrink_from_right_edge() {
    let mut wm = WindowManager::new();
    wm.add_window(win("a", 10, 5, 40, 10));
    wm.left_mouse_down(49, 7);
    assert_eq!(wm.windows[0].resizing, Some(Resize::Right));
    assert!(!wm.windows[0].held);
    wm.left_mouse_drag(15, 7);
    assert_eq!(wm.windows[0].area, Rect { x: 10, y: 5, width: 6, height: 10 });
}

#[test]
fn no_hit_click_is_a_no_op() {
    let mut wm = WindowManager::new();
    wm.left_mouse_down(0, 0);
    assert!(wm.windows.is_empty());
    assert_eq!(wm.current_offset, None);

    wm.add_window(win("a", 10, 5, 40, 10));
    wm.left_mouse_down(0, 0);
    assert_eq!(wm.windows.len(), 1);
    assert!(wm.windows[0].focused);
    assert!(!wm.windows[0].held);
    assert_eq!(wm.windows[0].resizing, None);
    assert_eq!(wm.current_offset, None);
}

#[test]
fn exactly_one_focused_after_operations() {
    let mut wm = WindowManager::new();
    wm.add_window(win("a", 0, 0, 20, 10));
    assert_eq!(focused_count(&wm), 1);
    wm.add_window(win("b", 5, 2, 20, 10));
    assert_eq!(focused_count(&wm), 1);
    wm.add_window(win("c", 10, 4, 20, 10));
    assert_eq!(focused_count(&wm), 1);
    assert!(wm.windows[2].focused);

    wm.focus_window(0);
    assert_eq!(focused_count(&wm), 1);
    wm.left_mouse_down(6, 3);
    assert_eq!(focused_count(&wm), 1);
    wm.left_mouse_drag(7, 4);
    assert_eq!(focused_count(&wm), 1);
    wm.let_windows_go();
    assert_eq!(focused_count(&wm), 1);
    wm.next_window();
    assert_eq!(focused_count(&wm), 1);
}

#[test]
fn sizes_never_drop_below_two() {
    let mut wm = WindowManager::new();
    wm.add_window(win("a", 10, 5, 40, 10));
    // shrink from the right edge far past the left edge
    wm.left_mouse_down(49, 7);
    wm.left_mouse_drag(0, 7);
    assert_eq!(wm.windows[0].area.width, 2);
    wm.let_windows_go();
    // shrink from the bottom edge far above the top edge
    let mut wm = WindowManager::new();
    wm.add_window(win("b", 10, 5, 40, 10));
    wm.left_mouse_down(12, 14);
    assert_eq!(wm.windows[0].resizing, Some(Resize::Down));
    wm.left_mouse_drag(12, 0);
    assert_eq!(wm.windows[0].area.height, 2);
    assert!(wm.windows[0].area.width >= 2);
}

#[test]
fn at_most_one_gesture_at_a_time() {
    let mut wm = WindowManager::new();
    wm.add_window(win("a", 0, 0, 20, 10));
    wm.add_window(win("b", 30, 0, 20, 10));
    assert_eq!(gesture_count(&wm), 0);
    wm.left_mouse_down(5, 0);
    assert_eq!(gesture_count(&wm), 1);
    wm.let_windows_go();
    assert_eq!(gesture_count(&wm), 0);
    wm.left_mouse_down(30, 3);
    assert_eq!(gesture_count(&wm), 1);
    let holder = wm.windows.iter().find(|w| w.held || w.resizing.is_some()).unwrap();
    assert!(!(holder.held && holder.resizing.is_some()));
    wm.let_windows_go();
    assert_eq!(gesture_count(&wm), 0);
}

#[test]
fn pointer_up_twice_is_idempotent() {
    let mut wm = WindowManager::new();
    wm.add_window(win("a", 10, 5, 40, 10));
    wm.left_mouse_down(12, 5);
    assert!(wm.windows[0].held);
    wm.let_windows_go();
    let after_once: Vec<Window> = wm
        .windows
        .iter()
        .map(|w| Window {
            title: w.title.clone(),
            area: w.area,
            focused: w.focused,
            held: w.held,
            resizing: w.resizing,
        })
        .collect();
    let offset_once = wm.current_offset;
    wm.let_windows_go();
    assert_eq!(wm.windows, after_once);
    assert_eq!(wm.current_offset, offset_once);
}

#[test]
fn focus_moves_window_to_end_and_wins_hit_test() {
    let mut wm = WindowManager::new();
    // overlapping rectangles: both contain (12, 6)
    wm.add_window(win("bottom", 10, 5, 20, 8));
    wm.add_window(win("top", 8, 4, 20, 8));
    wm.focus_window(0);
    assert_eq!(wm.windows[1].title, "bottom");
    assert!(wm.windows[1].focused);
    assert!(!wm.windows[0].focused);
    // a click on the overlap now hits "bottom", the raised window
    wm.left_mouse_down(12, 6);
    assert_eq!(wm.windows[1].title, "bottom");
    assert!(wm.windows[1].focused);
}

#[test]
fn focus_next_cycles_and_wraps() {
    let mut wm = WindowManager::new();
    wm.add_window(win("w0", 0, 0, 10, 5));
    wm.add_window(win("w1", 20, 0, 10, 5));
    wm.add_window(win("w2", 40, 0, 10, 5));
    // order is [w0, w1, w2]; force focus onto the middle slot
    for w in wm.windows.iter_mut() {
        w.focused = false;
    }
    wm.windows[1].focused = true;
    wm.next_window();
    // the window after slot 1 — w2 — gains focus
    assert_eq!(focused_count(&wm), 1);
    assert_eq!(wm.windows[2].title, "w2");
    assert!(wm.windows[2].focused);
    // repeating wraps past the end back to slot 0, which holds w0
    wm.next_window();
    assert_eq!(focused_count(&wm), 1);
    let focused: Vec<&str> = wm
        .windows
        .iter()
        .filter(|w| w.focused)
        .map(|w| w.title.as_str())
        .collect();
    assert_eq!(focused, vec!["w0"]);
}

#[test]
fn focus_next_on_empty_and_unfocused() {
    let mut wm = WindowManager::new();
    wm.next_window();
    assert!(wm.windows.is_empty());

    wm.add_window(win("a", 0, 0, 10, 5));
    wm.add_window(win("b", 20, 0, 10, 5));
    for w in wm.windows.iter_mut() {
        w.focused = false;
    }
    // with nothing focused, slot 0 gains focus
    wm.next_window();
    assert_eq!(focused_count(&wm), 1);
    let focused: Vec<&str> = wm
        .windows
        .iter()
        .filter(|w| w.focused)
        .map(|w| w.title.as_str())
        .collect();
    assert_eq!(focused, vec!["a"]);
}

#[test]
fn add_window_focuses_the_new_window() {
    let mut wm = WindowManager::new();
    wm.add_window(win("a", 0, 0, 10, 5));
    assert!(wm.windows[0].focused);
    wm.add_window(win("b", 0, 0, 10, 5));
    assert!(!wm.windows[0].focused);
    assert!(wm.windows[1].focused);
    assert_eq!(wm.windows.len(), 2);
}

#[test]
fn hit_test_prefers_topmost_and_respects_edges() {
    let mut wm = WindowManager::new();
    wm.add_window(win("bottom", 0, 0, 10, 10));
    wm.add_window(win("top", 5, 5, 10, 10));
    // overlap cell belongs to the top-most window
    assert_eq!(wm.get_window_at_cords(6, 6), Some(1));
    // left/top edges are inclusive
    assert_eq!(wm.get_window_at_cords(0, 0), Some(0));
    assert_eq!(wm.get_window_at_cords(5, 5), Some(1));
    // right/bottom edges are exclusive
    assert_eq!(wm.get_window_at_cords(4, 10), None);
    assert_eq!(wm.get_window_at_cords(15, 6), None);
    assert_eq!(wm.get_window_at_cords(14, 14), Some(1));
}

#[test]
fn move_clamps_at_column_zero() {
    let mut wm = WindowManager::new();
    wm.add_window(win("a", 10, 5, 40, 10));
    wm.left_mouse_down(15, 5);
    assert_eq!(wm.current_offset, Some(5));
    wm.left_mouse_drag(2, 3);
    // 2 - 5 saturates to 0
    assert_eq!(wm.windows[0].area, Rect { x: 0, y: 3, width: 40, height: 10 });
}

#[test]
fn resize_left_moves_edge_and_clamps() {
    let mut wm = WindowManager::new();
    wm.add_window(win("a", 10, 5, 40, 10));
    wm.left_mouse_down(10, 7);
    assert_eq!(wm.windows[0].resizing, Some(Resize::Left));
    // widen: drag the left edge to column 4
    wm.left_mouse_drag(4, 7);
    assert_eq!(wm.windows[0].area, Rect { x: 4, y: 5, width: 46, height: 10 });
    // drag the left edge far past the right edge: width floors at 2 and the
    // left edge refuses to cross
    wm.left_mouse_drag(60, 7);
    assert_eq!(wm.windows[0].area.width, 2);
    assert_eq!(wm.windows[0].area.x, 4);
}

#[test]
fn resize_down_left_corner() {
    let mut wm = WindowManager::new();
    wm.add_window(win("a", 10, 5, 40, 10));
    wm.left_mouse_down(10, 14);
    assert_eq!(wm.windows[0].resizing, Some(Resize::DownLeft));
    wm.left_mouse_drag(8, 20);
    // left edge to 8, width 42; bottom edge to 20, height 16
    assert_eq!(wm.windows[0].area, Rect { x: 8, y: 5, width: 42, height: 16 });
}

#[test]
fn resize_down_right_corner() {
    let mut wm = WindowManager::new();
    wm.add_window(win("a", 10, 5, 40, 10));
    wm.left_mouse_down(49, 14);
    assert_eq!(wm.windows[0].resizing, Some(Resize::DownRight));
    wm.left_mouse_drag(20, 8);
    assert_eq!(wm.windows[0].area, Rect { x: 10, y: 5, width: 11, height: 4 });
}

#[test]
fn interior_click_focuses_without_grabbing() {
    let mut wm = WindowManager::new();
    wm.add_window(win("a", 0, 0, 10, 5));
    wm.add_window(win("b", 20, 0, 10, 5));
    wm.left_mouse_down(3, 2);
    assert_eq!(wm.windows[1].title, "a");
    assert!(wm.windows[1].focused);
    assert!(!wm.windows[1].held);
    assert_eq!(wm.windows[1].resizing, None);
    // a drag after an interior click changes nothing
    let before: Rect = wm.windows[1].area;
    wm.left_mouse_drag(9, 9);
    assert_eq!(wm.windows[1].area, before);
}

#[test]
fn drag_targets_the_gesture_holder_not_the_last_window() {
    let mut wm = WindowManager::new();
    wm.add_window(win("a", 0, 0, 10, 5));
    wm.add_window(win("b", 20, 0, 10, 5));
    // grab "a" by its title row; it becomes the last window
    wm.left_mouse_down(3, 0);
    assert!(wm.windows[1].held);
    // refocus "b" so the held window is no longer last
    wm.focus_window(0);
    assert_eq!(wm.windows[0].title, "a");
    assert!(wm.windows[0].held);
    wm.left_mouse_drag(7, 3);
    // the held window moved, the focused one did not
    assert_eq!(wm.windows[0].area, Rect { x: 4, y: 3, width: 10, height: 5 });
    assert_eq!(wm.windows[1].area, Rect { x: 20, y: 0, width: 10, height: 5 });
}

#[test]
fn resize_saturates_at_the_cell_limit() {
    let mut wm = WindowManager::new();
    wm.add_window(win("a", 0, 0, 10, 5));
    wm.left_mouse_down(9, 2);
    assert_eq!(wm.windows[0].resizing, Some(Resize::Right));
    // the span 0..=65535 does not fit in a u16 width, so it caps
    wm.left_mouse_drag(u16::MAX, 2);
    assert_eq!(wm.windows[0].area.width, u16::MAX);
    wm.let_windows_go();
    // a held window follows the pointer to the far corner without panicking
    wm.left_mouse_down(1, 0);
    wm.left_mouse_drag(u16::MAX, u16::MAX);
    assert_eq!(wm.windows[0].area.x, u16::MAX - 1);
    assert_eq!(wm.windows[0].area.y, u16::MAX);
}

#[test]
fn drag_with_no_gesture_is_a_no_op() {
    let mut wm = WindowManager::new();
    wm.left_mouse_drag(5, 5);
    assert!(wm.windows.is_empty());

    wm.add_window(win("a", 10, 5, 40, 10));
    wm.left_mouse_drag(30, 30);
    assert_eq!(wm.windows[0].area, Rect { x: 10, y: 5, width: 40, height: 10 });
}
