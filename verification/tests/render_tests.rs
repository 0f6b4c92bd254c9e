//! Renderer: command order, border colors, launcher overlay and the
//! cursor marker.

use heydm::launcher::AppLauncher;
use heydm::render::{Color, Renderer};
use heydm::state::DesktopState;

fn empty_state() -> DesktopState {
    DesktopState::new(AppLauncher::new(&vec![]))
}

fn state_with_entries(n: usize) -> DesktopState {
    let mut files = Vec::new();
    for i in 0..n {
        let name = format!("App{i:02}");
        let content = format!("[Desktop Entry]\nName={name}\nExec=app{i}\n");
        files.push((
            format!("/a/{name}.desktop").into_bytes(),
            content.into_bytes(),
        ));
    }
    DesktopState::new(AppLauncher::new(&files))
}

#[test]
fn empty_frame_is_background_panel_cursor() {
    let state = empty_state();
    let cmds = Renderer::render_frame(&state);
    assert_eq!(cmds.len(), 4);
    // Background covers the output.
    assert_eq!(cmds[0].color, Color::BgDark);
    assert_eq!((cmds[0].x, cmds[0].y, cmds[0].w, cmds[0].h), (0, 0, 1920, 1080));
    // Panel bar with its accent line.
    assert_eq!(cmds[1].color, Color::PanelBg);
    assert_eq!((cmds[1].x, cmds[1].y, cmds[1].w, cmds[1].h), (10, 10, 1900, 44));
    assert_eq!(cmds[2].color, Color::AccentCrimson);
    assert_eq!((cmds[2].x, cmds[2].y, cmds[2].w, cmds[2].h), (30, 52, 60, 2));
    // Cursor marker at the origin.
    assert_eq!(cmds[3].color, Color::AccentCyan);
    assert_eq!((cmds[3].x, cmds[3].y, cmds[3].w, cmds[3].h), (-4, -4, 8, 8));
}

#[test]
fn topmost_window_gets_focused_border() {
    let mut state = empty_state();
    state.on_new_toplevel(1);
    state.on_new_toplevel(2);
    let cmds = Renderer::render_frame(&state);
    // Background, 4 + 4 borders, 2 panel, 1 cursor.
    assert_eq!(cmds.len(), 12);
    for k in 1..5 {
        assert_eq!(cmds[k].color, Color::BorderUnfocused);
    }
    for k in 5..9 {
        assert_eq!(cmds[k].color, Color::BorderFocused);
    }
    // The top border of the focused window, 3 pixels thick above it.
    let w = state.window_manager.windows()[1];
    assert_eq!(
        (cmds[5].x, cmds[5].y, cmds[5].w, cmds[5].h),
        (w.x - 3, w.y - 3, w.w + 6, 3)
    );
    // Left and right borders.
    assert_eq!((cmds[7].x, cmds[7].y, cmds[7].w, cmds[7].h), (w.x - 3, w.y, 3, w.h));
    assert_eq!((cmds[8].x, cmds[8].y, cmds[8].w, cmds[8].h), (w.x + w.w, w.y, 3, w.h));
}

#[test]
fn hidden_launcher_draws_nothing_extra() {
    let state = state_with_entries(3);
    let cmds = Renderer::render_frame(&state);
    assert_eq!(cmds.len(), 4);
    assert!(cmds.iter().all(|c| c.color != Color::DimOverlay));
}

#[test]
fn visible_launcher_draws_overlay_box_and_items() {
    let mut state = state_with_entries(3);
    state.launcher.show();
    let cmds = Renderer::render_frame(&state);
    // 1 bg + 2 panel + (3 overlay parts + 3 items * 2 rects) + cursor.
    assert_eq!(cmds.len(), 1 + 2 + 3 + 6 + 1);
    assert_eq!(cmds[3].color, Color::DimOverlay);
    assert_eq!((cmds[3].w, cmds[3].h), (1920, 1080));
    assert_eq!(cmds[4].color, Color::LauncherBg);
    assert_eq!((cmds[4].x, cmds[4].y, cmds[4].w, cmds[4].h), (560, 240, 800, 600));
    assert_eq!(cmds[5].color, Color::SearchBarBg);
    assert_eq!((cmds[5].x, cmds[5].y, cmds[5].w, cmds[5].h), (580, 260, 760, 50));
    // First item is selected: highlighted cell then crimson icon.
    assert_eq!(cmds[6].color, Color::ItemSelectedBg);
    assert_eq!((cmds[6].x, cmds[6].y, cmds[6].w, cmds[6].h), (595, 335, 175, 90));
    assert_eq!(cmds[7].color, Color::AccentCrimson);
    // Second item is plain.
    assert_eq!(cmds[8].color, Color::ItemPlainBg);
    assert_eq!((cmds[8].x, cmds[8].y), (595 + 185, 335));
    assert_eq!(cmds[9].color, Color::AccentCyan);
}

#[test]
fn launcher_draws_at_most_twelve_items() {
    let mut state = state_with_entries(20);
    state.launcher.show();
    let cmds = Renderer::render_frame(&state);
    assert_eq!(cmds.len(), 1 + 2 + 3 + 12 * 2 + 1);
}

#[test]
fn selection_moves_highlight() {
    let mut state = state_with_entries(3);
    state.launcher.show();
    state.launcher.select_next();
    let cmds = Renderer::render_frame(&state);
    assert_eq!(cmds[6].color, Color::ItemPlainBg);
    assert_eq!(cmds[8].color, Color::ItemSelectedBg);
    assert_eq!(cmds[9].color, Color::AccentCrimson);
}

#[test]
fn cursor_marker_follows_cursor() {
    let mut state = empty_state();
    state.window_manager.set_cursor_position(300, 400);
    let cmds = Renderer::render_frame(&state);
    let cursor = cmds.last().unwrap();
    assert_eq!(cursor.color, Color::AccentCyan);
    assert_eq!((cursor.x, cursor.y, cursor.w, cursor.h), (296, 396, 8, 8));
}

#[test]
fn frame_tracks_output_resize() {
    let mut state = empty_state();
    state.on_resize(1280, 720);
    let cmds = Renderer::render_frame(&state);
    assert_eq!((cmds[0].w, cmds[0].h), (1280, 720));
    assert_eq!(cmds[1].w, 1260);
}
