//! Input router: the keybinding table, action effects, and dispatch
//! priorities.

use heydm::input::{
    CompositorAction, InputEvent, InputHandler, InputOutcome, ModifierState, KEYSYM_F4,
    KEYSYM_LEFT, KEYSYM_LOWER_D, KEYSYM_LOWER_E, KEYSYM_LOWER_F, KEYSYM_LOWER_Q, KEYSYM_RETURN,
    KEYSYM_RIGHT, KEYSYM_TAB, KEYSYM_UPPER_D, KEYSYM_UPPER_Q,
};
use heydm::launcher::AppLauncher;
use heydm::state::DesktopState;

fn mods(ctrl: bool, alt: bool, shift: bool, logo: bool) -> ModifierState {
    ModifierState { ctrl, alt, shift, logo }
}

fn state_with_apps() -> DesktopState {
    let files = vec![(
        b"/a/term.desktop".to_vec(),
        b"[Desktop Entry]\nName=Term\nExec=term\n".to_vec(),
    )];
    DesktopState::new(AppLauncher::new(&files))
}

#[test]
fn binding_table_is_exact() {
    let logo = mods(false, false, false, true);
    let cases = [
        (KEYSYM_RETURN, CompositorAction::SpawnTerminal),
        (KEYSYM_LOWER_D, CompositorAction::ToggleLauncher),
        (KEYSYM_UPPER_D, CompositorAction::ToggleLauncher),
        (KEYSYM_LOWER_Q, CompositorAction::CloseWindow),
        (KEYSYM_UPPER_Q, CompositorAction::CloseWindow),
        (KEYSYM_LOWER_F, CompositorAction::ToggleFullscreen),
        (KEYSYM_LEFT, CompositorAction::TileLeft),
        (KEYSYM_RIGHT, CompositorAction::TileRight),
        (KEYSYM_TAB, CompositorAction::CycleFocus),
    ];
    for (sym, action) in cases {
        assert_eq!(InputHandler::check_compositor_binding(&logo, sym), Some(action));
    }
    // Super+Shift+E exits; Super+E alone does not.
    let logo_shift = mods(false, false, true, true);
    assert_eq!(
        InputHandler::check_compositor_binding(&logo_shift, KEYSYM_LOWER_E),
        Some(CompositorAction::ExitCompositor)
    );
    assert_eq!(InputHandler::check_compositor_binding(&logo, KEYSYM_LOWER_E), None);
    // Alt+F4 closes; F4 alone does not.
    let alt = mods(false, true, false, false);
    assert_eq!(
        InputHandler::check_compositor_binding(&alt, KEYSYM_F4),
        Some(CompositorAction::CloseWindow)
    );
    assert_eq!(InputHandler::check_compositor_binding(&mods(false, false, false, false), KEYSYM_F4), None);
    // Without Super, letters are not intercepted.
    assert_eq!(
        InputHandler::check_compositor_binding(&mods(true, false, false, false), KEYSYM_LOWER_D),
        None
    );
}

#[test]
fn spawn_terminal_effect_names_alacritty() {
    let mut state = state_with_apps();
    let eff = InputHandler::execute_action(&mut state, CompositorAction::SpawnTerminal);
    assert_eq!(eff.spawn, Some(b"alacritty".to_vec()));
    assert_eq!(eff.close_window, None);
    assert!(!eff.stop);
}

#[test]
fn exit_effect_requests_stop() {
    let mut state = state_with_apps();
    let eff = InputHandler::execute_action(&mut state, CompositorAction::ExitCompositor);
    assert!(eff.stop);
    assert_eq!(eff.spawn, None);
}

#[test]
fn close_window_effect_names_focused_surface() {
    let mut state = state_with_apps();
    state.on_new_toplevel(11);
    state.on_new_toplevel(12);
    let eff = InputHandler::execute_action(&mut state, CompositorAction::CloseWindow);
    assert_eq!(eff.close_window, Some(12));
    // The window is not removed locally; only the destroyed
    // notification removes it.
    assert_eq!(state.window_manager.windows().len(), 2);
}

#[test]
fn toggle_launcher_action_toggles_overlay() {
    let mut state = state_with_apps();
    assert!(!state.launcher.is_visible());
    InputHandler::execute_action(&mut state, CompositorAction::ToggleLauncher);
    assert!(state.launcher.is_visible());
    InputHandler::execute_action(&mut state, CompositorAction::ToggleLauncher);
    assert!(!state.launcher.is_visible());
}

#[test]
fn bound_key_press_is_intercepted_release_forwarded() {
    let mut state = state_with_apps();
    InputHandler::set_modifiers(&mut state, mods(false, false, false, true));
    let out = InputHandler::handle_input(
        &mut state,
        InputEvent::Keyboard { keysym: KEYSYM_RETURN, pressed: true },
    );
    match out {
        InputOutcome::KeyIntercepted(eff) => assert_eq!(eff.spawn, Some(b"alacritty".to_vec())),
        _ => panic!("press of a bound key must be intercepted"),
    }
    let out = InputHandler::handle_input(
        &mut state,
        InputEvent::Keyboard { keysym: KEYSYM_RETURN, pressed: false },
    );
    assert!(matches!(out, InputOutcome::KeyForward { keysym, pressed: false } if keysym == KEYSYM_RETURN));
}

#[test]
fn unbound_key_is_forwarded() {
    let mut state = state_with_apps();
    let out = InputHandler::handle_input(
        &mut state,
        InputEvent::Keyboard { keysym: 0x41, pressed: true },
    );
    assert!(matches!(out, InputOutcome::KeyForward { keysym: 0x41, pressed: true }));
}

#[test]
fn click_in_panel_band_is_consumed() {
    let mut state = state_with_apps();
    state.on_new_toplevel(1);
    let out = InputHandler::handle_input(
        &mut state,
        InputEvent::PointerButton { button: 0x110, pressed: true },
    );
    // The cursor starts at (0, 0), inside the panel band.
    assert!(matches!(out, InputOutcome::ButtonPanel));
}

#[test]
fn click_through_router_promotes_window() {
    // Stack [W1, W2]; a click inside W1 promotes it and forwards the
    // button to it.
    let mut state = state_with_apps();
    state.on_new_toplevel(1);
    state.on_new_toplevel(2);
    state.window_manager.windows[0].set_position(0, 100);
    state.window_manager.windows[0].set_size(200, 200);
    state.window_manager.windows[1].set_position(500, 100);
    state.window_manager.windows[1].set_size(200, 200);
    state.window_manager.set_cursor_position(50, 150);
    let out = InputHandler::handle_input(
        &mut state,
        InputEvent::PointerButton { button: 0x110, pressed: true },
    );
    assert!(matches!(out, InputOutcome::ButtonForward { button: 0x110, pressed: true }));
    let ids: Vec<u64> = state.window_manager.windows().iter().map(|w| w.id).collect();
    assert_eq!(ids, vec![2, 1]);
    assert_eq!(state.window_manager.focused_window().unwrap().id, 1);
}

#[test]
fn launcher_click_launches_and_hides() {
    let mut state = state_with_apps();
    state.launcher.show();
    state.window_manager.set_cursor_position(600, 340);
    let out = InputHandler::handle_input(
        &mut state,
        InputEvent::PointerButton { button: 0x110, pressed: true },
    );
    match out {
        InputOutcome::ButtonLaunch(cmd) => assert_eq!(cmd, b"term".to_vec()),
        _ => panic!("launcher click must launch"),
    }
    assert!(!state.launcher.is_visible());
}

#[test]
fn launcher_miss_falls_through_to_focus() {
    let mut state = state_with_apps();
    state.on_new_toplevel(1);
    state.launcher.show();
    state.window_manager.set_cursor_position(700, 500);
    // (700, 500) is inside the launcher box but in no grid cell row
    // that holds an entry; the single entry sits in cell 0.
    let out = InputHandler::handle_input(
        &mut state,
        InputEvent::PointerButton { button: 0x110, pressed: true },
    );
    assert!(matches!(out, InputOutcome::ButtonForward { .. }));
}

#[test]
fn release_is_always_forwarded() {
    let mut state = state_with_apps();
    state.launcher.show();
    state.window_manager.set_cursor_position(0, 0);
    let out = InputHandler::handle_input(
        &mut state,
        InputEvent::PointerButton { button: 0x110, pressed: false },
    );
    assert!(matches!(out, InputOutcome::ButtonForward { pressed: false, .. }));
}

#[test]
fn relative_motion_moves_cursor_and_forwards() {
    let mut state = state_with_apps();
    state.on_new_toplevel(1);
    state.window_manager.windows[0].set_position(100, 200);
    state.window_manager.set_cursor_position(100, 200);
    let out = InputHandler::handle_input(&mut state, InputEvent::PointerMotion { dx: 20, dy: 30 });
    match out {
        InputOutcome::MotionForward { surface, local_x, local_y, abs_x, abs_y } => {
            assert_eq!(surface, 1);
            assert_eq!((abs_x, abs_y), (120, 230));
            assert_eq!((local_x, local_y), (20, 30));
        }
        _ => panic!("motion over a window must be forwarded"),
    }
}

#[test]
fn motion_during_grab_is_consumed() {
    let mut state = state_with_apps();
    state.on_new_toplevel(1);
    state.window_manager.set_cursor_position(500, 500);
    state.window_manager.begin_resize();
    let out = InputHandler::handle_input(&mut state, InputEvent::PointerMotion { dx: -9000, dy: -9000 });
    assert!(matches!(out, InputOutcome::MotionConsumed));
    // The cursor clamps to (0, 0): the delta that reaches the resize
    // is (-500, -500), and the height bottoms out at the minimum.
    let w = state.window_manager.windows()[0];
    assert_eq!((w.w, w.h), (300, 150));
}

#[test]
fn motion_over_nothing_has_no_target() {
    let mut state = state_with_apps();
    let out = InputHandler::handle_input(&mut state, InputEvent::PointerMotion { dx: 5, dy: 5 });
    assert!(matches!(out, InputOutcome::MotionNoTarget));
}

#[test]
fn absolute_motion_sets_cursor_directly() {
    let mut state = state_with_apps();
    state.on_new_toplevel(1);
    state.window_manager.windows[0].set_position(100, 200);
    let out = InputHandler::handle_input(
        &mut state,
        InputEvent::PointerMotionAbsolute { x: 150, y: 250 },
    );
    match out {
        InputOutcome::MotionForward { surface, local_x, local_y, .. } => {
            assert_eq!(surface, 1);
            assert_eq!((local_x, local_y), (50, 50));
        }
        _ => panic!("absolute motion over a window must be forwarded"),
    }
    assert_eq!(state.window_manager.cursor_position(), (150, 250));
}

#[test]
fn axis_is_always_forwarded() {
    let mut state = state_with_apps();
    let out = InputHandler::handle_input(
        &mut state,
        InputEvent::PointerAxis { horizontal: 0, vertical: -3 },
    );
    assert!(matches!(out, InputOutcome::AxisForward { horizontal: 0, vertical: -3 }));
}

#[test]
fn lifecycle_notifications_drive_registry() {
    let mut state = state_with_apps();
    state.on_new_toplevel(5);
    state.on_new_toplevel(6);
    assert_eq!(state.window_manager.windows().len(), 2);
    state.on_commit(5);
    assert_eq!(state.window_manager.windows().len(), 2);
    state.on_toplevel_destroyed(5);
    assert_eq!(state.window_manager.windows().len(), 1);
    assert_eq!(state.window_manager.windows()[0].id, 6);
    state.on_resize(1280, 720);
    assert_eq!((state.output_w, state.output_h), (1280, 720));
    state.on_new_toplevel(7);
    let w = state.window_manager.windows()[1];
    assert_eq!((w.x, w.y), (240, 76));
}

#[test]
fn fullscreen_keybinding_round_trip() {
    let mut state = state_with_apps();
    state.on_new_toplevel(1);
    let before = state.window_manager.windows()[0];
    InputHandler::set_modifiers(&mut state, mods(false, false, false, true));
    let press = InputEvent::Keyboard { keysym: KEYSYM_LOWER_F, pressed: true };
    InputHandler::handle_input(&mut state, press);
    assert!(state.window_manager.windows()[0].fullscreen);
    InputHandler::handle_input(&mut state, press);
    assert_eq!(state.window_manager.windows()[0], before);
}

#[test]
fn cycle_keybinding_promotes_windows() {
    let mut state = state_with_apps();
    state.on_new_toplevel(1);
    state.on_new_toplevel(2);
    state.on_new_toplevel(3);
    InputHandler::set_modifiers(&mut state, mods(false, false, false, true));
    let press = InputEvent::Keyboard { keysym: KEYSYM_TAB, pressed: true };
    let mut tops = Vec::new();
    for _ in 0..3 {
        InputHandler::handle_input(&mut state, press);
        tops.push(state.window_manager.windows().last().unwrap().id);
    }
    let mut sorted = tops.clone();
    sorted.sort();
    assert_eq!(sorted, vec![1, 2, 3]);
}
