//! Window manager: focus invariant, stacking, fullscreen, grabs.

use heydm::window::{GrabKind, WindowElement, WindowManager};

fn manager_with(ids: &[u64]) -> WindowManager {
    let mut wm = WindowManager::new();
    for &id in ids {
        wm.add_window(WindowElement::new(id), 1920, 1080);
    }
    wm
}

fn check_focus_invariant(wm: &WindowManager) {
    match wm.focused {
        None => assert!(wm.windows.is_empty()),
        Some(i) => {
            assert!(!wm.windows.is_empty());
            assert!(i < wm.windows.len());
        }
    }
}

#[test]
fn empty_manager_has_no_focus() {
    let wm = WindowManager::new();
    assert!(wm.windows.is_empty());
    assert_eq!(wm.focused, None);
    assert!(wm.focused_window().is_none());
    assert!(wm.close_focused().is_none());
}

#[test]
fn add_focuses_new_window() {
    let mut wm = WindowManager::new();
    wm.add_window(WindowElement::new(7), 1920, 1080);
    assert_eq!(wm.focused, Some(0));
    assert_eq!(wm.windows[0].id, 7);
    check_focus_invariant(&wm);
    wm.add_window(WindowElement::new(8), 1920, 1080);
    assert_eq!(wm.focused, Some(1));
    check_focus_invariant(&wm);
}

#[test]
fn add_centers_below_panel() {
    let mut wm = WindowManager::new();
    wm.add_window(WindowElement::new(1), 1920, 1080);
    let w = &wm.windows[0];
    // (1920 - 800) / 2 and 32 + (1080 - 32 - 600) / 2.
    assert_eq!((w.x, w.y), (560, 256));
    assert_eq!((w.w, w.h), (800, 600));
}

#[test]
fn add_to_tiny_output_clamps_to_panel_band() {
    let mut wm = WindowManager::new();
    wm.add_window(WindowElement::new(1), 400, 300);
    let w = &wm.windows[0];
    assert_eq!(w.x, 0);
    assert_eq!(w.y, 32);
}

#[test]
fn remove_keeps_focus_invariant_for_any_sequence() {
    let mut wm = manager_with(&[1, 2, 3, 4]);
    wm.remove_window(2);
    check_focus_invariant(&wm);
    assert_eq!(wm.focused, Some(2));
    wm.remove_window(4);
    check_focus_invariant(&wm);
    wm.remove_window(1);
    check_focus_invariant(&wm);
    wm.remove_window(3);
    check_focus_invariant(&wm);
    assert_eq!(wm.focused, None);
}

#[test]
fn remove_unknown_id_is_noop() {
    let mut wm = manager_with(&[1, 2]);
    wm.remove_window(99);
    assert_eq!(wm.windows.len(), 2);
    assert_eq!(wm.focused, Some(1));
}

#[test]
fn remove_below_focus_shifts_focus_down() {
    let mut wm = manager_with(&[1, 2, 3]);
    assert_eq!(wm.focused, Some(2));
    wm.remove_window(1);
    assert_eq!(wm.focused, Some(1));
    assert_eq!(wm.windows[1].id, 3);
}

#[test]
fn toggle_fullscreen_round_trip_restores_geometry() {
    let mut wm = manager_with(&[5]);
    let before = wm.windows[0];
    wm.toggle_fullscreen(1920, 1080);
    let full = wm.windows[0];
    assert!(full.fullscreen);
    assert_eq!((full.x, full.y, full.w, full.h), (0, 0, 1920, 1080));
    assert!(full.saved_geometry.is_some());
    wm.toggle_fullscreen(1920, 1080);
    let after = wm.windows[0];
    assert_eq!(after, before);
}

#[test]
fn toggle_fullscreen_with_nothing_saved_keeps_geometry() {
    // A window that is already fullscreen but carries no saved
    // geometry: restoring must only clear the flag.
    let mut wm = WindowManager::new();
    wm.windows.push(WindowElement {
        id: 1,
        x: 10,
        y: 40,
        w: 300,
        h: 200,
        fullscreen: true,
        saved_geometry: None,
    });
    wm.focused = Some(0);
    wm.toggle_fullscreen(1920, 1080);
    let w = wm.windows[0];
    assert!(!w.fullscreen);
    assert_eq!((w.x, w.y, w.w, w.h), (10, 40, 300, 200));
    // A second toggle enters fullscreen normally.
    wm.toggle_fullscreen(1920, 1080);
    let w2 = wm.windows[0];
    assert!(w2.fullscreen);
    assert_eq!((w2.x, w2.y, w2.w, w2.h), (0, 0, 1920, 1080));
    assert_eq!(
        w2.saved_geometry.map(|r| (r.x, r.y, r.w, r.h)),
        Some((10, 40, 300, 200))
    );
}

#[test]
fn tiling_halves_leave_fullscreen() {
    let mut wm = manager_with(&[1]);
    wm.toggle_fullscreen(1920, 1080);
    wm.tile_left(1920, 1080);
    let w = wm.windows[0];
    assert!(!w.fullscreen);
    assert!(w.saved_geometry.is_none());
    assert_eq!((w.x, w.y, w.w, w.h), (0, 32, 960, 1048));
    wm.tile_right(1920, 1080);
    let w = wm.windows[0];
    assert_eq!((w.x, w.y, w.w, w.h), (960, 32, 960, 1048));
}

#[test]
fn focus_at_promotes_hit_window() {
    // Two non-overlapping windows; a click in the first one's bounds
    // promotes it: stack [W1, W2] becomes [W2, W1], focused = W1.
    let mut wm = manager_with(&[1, 2]);
    wm.windows[0].set_position(0, 100);
    wm.windows[0].set_size(200, 200);
    wm.windows[1].set_position(500, 100);
    wm.windows[1].set_size(200, 200);
    assert_eq!(wm.focused, Some(1));
    wm.focus_at(50, 150);
    let ids: Vec<u64> = wm.windows.iter().map(|w| w.id).collect();
    assert_eq!(ids, vec![2, 1]);
    assert_eq!(wm.focused, Some(1));
    assert_eq!(wm.focused_window().unwrap().id, 1);
}

#[test]
fn focus_at_misses_all_windows() {
    let mut wm = manager_with(&[1, 2]);
    wm.windows[0].set_position(0, 100);
    wm.windows[0].set_size(10, 10);
    wm.windows[1].set_position(50, 100);
    wm.windows[1].set_size(10, 10);
    wm.focus_at(1000, 1000);
    let ids: Vec<u64> = wm.windows.iter().map(|w| w.id).collect();
    assert_eq!(ids, vec![1, 2]);
    assert_eq!(wm.focused, Some(1));
}

#[test]
fn focus_at_picks_topmost_of_overlapping() {
    let mut wm = manager_with(&[1, 2]);
    // Both windows cover the same area; the topmost (id 2) wins.
    wm.focus_at(960, 500);
    let ids: Vec<u64> = wm.windows.iter().map(|w| w.id).collect();
    assert_eq!(ids, vec![1, 2]);
    assert_eq!(wm.focused, Some(1));
}

#[test]
fn cycle_focus_visits_every_window_once() {
    let mut wm = manager_with(&[1, 2, 3]);
    let mut visited = Vec::new();
    for _ in 0..3 {
        wm.cycle_focus();
        // Each call promotes the newly focused window to the top.
        let top = wm.windows.last().unwrap().id;
        assert_eq!(wm.focused, Some(wm.windows.len() - 1));
        visited.push(top);
    }
    let mut sorted = visited.clone();
    sorted.sort();
    assert_eq!(sorted, vec![1, 2, 3]);
}

#[test]
fn cycle_focus_single_window_is_noop() {
    let mut wm = manager_with(&[9]);
    wm.cycle_focus();
    assert_eq!(wm.focused, Some(0));
    assert_eq!(wm.windows[0].id, 9);
    let mut empty = WindowManager::new();
    empty.cycle_focus();
    assert_eq!(empty.focused, None);
}

#[test]
fn resize_grab_never_shrinks_below_minimum() {
    let mut wm = manager_with(&[1]);
    wm.set_cursor_position(500, 500);
    wm.begin_resize();
    let consumed = wm.handle_pointer_motion(-100000, -100000);
    assert!(consumed);
    let w = wm.windows[0];
    assert_eq!((w.w, w.h), (200, 150));
}

#[test]
fn resize_grab_applies_delta() {
    let mut wm = manager_with(&[1]);
    wm.set_cursor_position(500, 500);
    wm.begin_resize();
    wm.handle_pointer_motion(510, 520);
    let w = wm.windows[0];
    assert_eq!((w.w, w.h), (810, 620));
}

#[test]
fn move_grab_keeps_window_below_panel_band() {
    let mut wm = manager_with(&[1]);
    wm.set_cursor_position(500, 500);
    wm.begin_move();
    wm.handle_pointer_motion(500, 0);
    let w = wm.windows[0];
    assert_eq!(w.y, 32);
    wm.handle_pointer_motion(530, 600);
    let w = wm.windows[0];
    assert_eq!((w.x, w.y), (590, 356));
}

#[test]
fn motion_without_grab_is_not_consumed() {
    let mut wm = manager_with(&[1]);
    assert!(!wm.handle_pointer_motion(10, 10));
    wm.begin_move();
    wm.end_grab();
    assert!(!wm.handle_pointer_motion(10, 10));
}

#[test]
fn grab_state_captures_geometry() {
    let mut wm = manager_with(&[1]);
    wm.set_cursor_position(42, 77);
    wm.begin_move();
    let g = wm.grab.unwrap();
    assert_eq!(g.kind, GrabKind::Move);
    assert_eq!((g.cursor_x, g.cursor_y), (42, 77));
    assert_eq!((g.win_x, g.win_y), (560, 256));
    assert_eq!((g.win_w, g.win_h), (800, 600));
    wm.begin_resize();
    assert_eq!(wm.grab.unwrap().kind, GrabKind::Resize);
}

#[test]
fn cursor_relative_motion_clamps_to_output() {
    let mut wm = WindowManager::new();
    let pos = wm.update_cursor_relative(-50, 30, 1920, 1080);
    assert_eq!(pos, (0, 30));
    let pos = wm.update_cursor_relative(5000, 5000, 1920, 1080);
    assert_eq!(pos, (1920, 1080));
}

#[test]
fn surface_under_returns_local_coordinates() {
    let mut wm = manager_with(&[1]);
    wm.windows[0].set_position(100, 200);
    let (id, (lx, ly)) = wm.surface_under(150, 260).unwrap();
    assert_eq!(id, 1);
    assert_eq!((lx, ly), (50, 60));
    assert!(wm.surface_under(5000, 5000).is_none());
}

#[test]
fn close_focused_names_the_focused_surface() {
    let wm = manager_with(&[4, 5]);
    assert_eq!(wm.close_focused(), Some(5));
    assert_eq!(wm.windows.len(), 2);
}

#[test]
fn contains_point_includes_edges() {
    let w = WindowElement::new(1);
    assert!(w.contains_point(100, 100));
    assert!(w.contains_point(900, 700));
    assert!(!w.contains_point(99, 100));
    assert!(!w.contains_point(901, 100));
    assert_eq!(w.toplevel(), 1);
    let g = w.geometry();
    assert_eq!((g.x, g.y, g.w, g.h), (100, 100, 800, 600));
}
