//! Input router: classifies backend input events, intercepts
//! compositor keybindings, and otherwise says what to forward to the
//! focused client or the active grab.
//!
//! The router performs no I/O itself: every outcome that needs the
//! backend (spawning a process, forwarding an event, stopping the
//! loop) is returned as data for the event-loop driver to act on.

use vstd::prelude::*;

use crate::launcher::{handle_click_spec, toggle_spec, LauncherModel};
use crate::state::{DesktopModel, DesktopState};
use crate::window::{
    cycle_spec, focus_at_spec, grab_motion_spec, lemma_cycle_preserves_wf,
    lemma_focus_at_preserves_wf, lemma_toggle_preserves_wf, tile_left_spec, tile_right_spec,
    toggle_spec as wm_toggle_spec, topmost_hit_spec, WmModel,
};
use crate::geometry::{clamp_spec, clamp_to_i32};

verus! {

/// Modifier key state tracked for compositor keybindings.
#[derive(Debug, Default, Clone, Copy, PartialEq, Eq, Structural)]
pub struct ModifierState {
    pub ctrl: bool,
    pub alt: bool,
    pub shift: bool,
    /// The Super / logo key.
    pub logo: bool,
}

impl ModifierState {
    /// All modifiers released.
    pub open spec fn default_spec() -> ModifierState {
        ModifierState { ctrl: false, alt: false, shift: false, logo: false }
    }
}

// Keysym values as the XKB common keysym table defines them.
pub const KEYSYM_RETURN: u32 = 0xFF0D;
pub const KEYSYM_TAB: u32 = 0xFF09;
pub const KEYSYM_LEFT: u32 = 0xFF51;
pub const KEYSYM_RIGHT: u32 = 0xFF53;
pub const KEYSYM_F4: u32 = 0xFFC1;
pub const KEYSYM_LOWER_D: u32 = 0x64;
pub const KEYSYM_UPPER_D: u32 = 0x44;
pub const KEYSYM_LOWER_Q: u32 = 0x71;
pub const KEYSYM_UPPER_Q: u32 = 0x51;
pub const KEYSYM_LOWER_F: u32 = 0x66;
pub const KEYSYM_UPPER_F: u32 = 0x46;
pub const KEYSYM_LOWER_E: u32 = 0x65;
pub const KEYSYM_UPPER_E: u32 = 0x45;

/// Compositor actions triggered by keybindings.
#[derive(Debug, Clone, Copy, PartialEq, Eq, Structural)]
pub enum CompositorAction {
    SpawnTerminal,
    ToggleLauncher,
    CloseWindow,
    ToggleFullscreen,
    TileLeft,
    TileRight,
    CycleFocus,
    ExitCompositor,
}

/// A backend input event, reduced to plain values.
#[derive(Debug, Clone, Copy, PartialEq, Eq, Structural)]
pub enum InputEvent {
    /// A key with its (modified) keysym.
    Keyboard { keysym: u32, pressed: bool },
    /// Relative pointer motion.
    PointerMotion { dx: i32, dy: i32 },
    /// Absolute pointer motion, output coordinates.
    PointerMotionAbsolute { x: i32, y: i32 },
    /// A pointer button.
    PointerButton { button: u32, pressed: bool },
    /// Scroll amounts per axis.
    PointerAxis { horizontal: i32, vertical: i32 },
}

/// What executing an action asks of the event-loop driver.
pub struct ActionEffect {
    /// Command line of a process to spawn, fire-and-forget.
    pub spawn: Option<Vec<u8>>,
    /// Surface identity to send a close request to.
    pub close_window: Option<u64>,
    /// Request to stop the event loop.
    pub stop: bool,
}

/// Snapshot of an action effect.
pub ghost struct ActionEffectModel {
    pub spawn: Option<Seq<u8>>,
    pub close_window: Option<u64>,
    pub stop: bool,
}

impl View for ActionEffect {
    type V = ActionEffectModel;

    open spec fn view(&self) -> ActionEffectModel {
        ActionEffectModel {
            spawn: match self.spawn {
                Some(ref v) => Some(v@),
                None => None,
            },
            close_window: self.close_window,
            stop: self.stop,
        }
    }
}

/// An effect that asks for nothing.
pub open spec fn no_effect() -> ActionEffectModel {
    ActionEffectModel { spawn: None, close_window: None, stop: false }
}

/// `alacritty`, the terminal the compositor spawns.
pub open spec fn terminal_cmd() -> Seq<u8> {
    seq![97u8, 108u8, 97u8, 99u8, 114u8, 105u8, 116u8, 116u8, 121u8]
}

/// How the router answers one event.
pub enum InputOutcome {
    /// A keybinding fired; the driver performs the effect.  The key is
    /// never forwarded.
    KeyIntercepted(ActionEffect),
    /// No binding matched: forward the key to the focused client.
    KeyForward { keysym: u32, pressed: bool },
    /// Forward pointer motion to this surface with surface-local and
    /// absolute coordinates.
    MotionForward { surface: u64, local_x: i32, local_y: i32, abs_x: i32, abs_y: i32 },
    /// Motion was consumed by an active grab.
    MotionConsumed,
    /// No surface under the cursor: nothing to forward.
    MotionNoTarget,
    /// The panel consumed the click.
    ButtonPanel,
    /// The launcher picked an application: spawn it; the overlay is
    /// already hidden.
    ButtonLaunch(Vec<u8>),
    /// Forward the button event to the focused client.
    ButtonForward { button: u32, pressed: bool },
    /// Forward the scroll amounts to the focused client.
    AxisForward { horizontal: i32, vertical: i32 },
}

/// Snapshot of an outcome.
pub ghost enum InputOutcomeModel {
    KeyIntercepted(ActionEffectModel),
    KeyForward { keysym: u32, pressed: bool },
    MotionForward { surface: u64, local_x: i32, local_y: i32, abs_x: i32, abs_y: i32 },
    MotionConsumed,
    MotionNoTarget,
    ButtonPanel,
    ButtonLaunch(Seq<u8>),
    ButtonForward { button: u32, pressed: bool },
    AxisForward { horizontal: i32, vertical: i32 },
}

impl View for InputOutcome {
    type V = InputOutcomeModel;

    open spec fn view(&self) -> InputOutcomeModel {
        match self {
            InputOutcome::KeyIntercepted(e) => InputOutcomeModel::KeyIntercepted(e@),
            InputOutcome::KeyForward { keysym, pressed } => InputOutcomeModel::KeyForward {
                keysym: *keysym,
                pressed: *pressed,
            },
            InputOutcome::MotionForward { surface, local_x, local_y, abs_x, abs_y } => {
                InputOutcomeModel::MotionForward {
                    surface: *surface,
                    local_x: *local_x,
                    local_y: *local_y,
                    abs_x: *abs_x,
                    abs_y: *abs_y,
                }
            },
            InputOutcome::MotionConsumed => InputOutcomeModel::MotionConsumed,
            InputOutcome::MotionNoTarget => InputOutcomeModel::MotionNoTarget,
            InputOutcome::ButtonPanel => InputOutcomeModel::ButtonPanel,
            InputOutcome::ButtonLaunch(cmd) => InputOutcomeModel::ButtonLaunch(cmd@),
            InputOutcome::ButtonForward { button, pressed } => InputOutcomeModel::ButtonForward {
                button: *button,
                pressed: *pressed,
            },
            InputOutcome::AxisForward { horizontal, vertical } => InputOutcomeModel::AxisForward {
                horizontal: *horizontal,
                vertical: *vertical,
            },
        }
    }
}

// ---------------------------------------------------------------------
// Keybinding table
// ---------------------------------------------------------------------

/// The static keybinding table, exactly: Super+Enter spawns the
/// terminal; Super+D toggles the launcher; Super+Q and Alt+F4 close
/// the focused window; Super+F toggles fullscreen; Super+Left and
/// Super+Right tile; Super+Tab cycles focus; Super+Shift+E stops the
/// loop.
pub open spec fn binding_spec(mods: ModifierState, keysym: u32) -> Option<CompositorAction> {
    if mods.logo {
        if keysym == KEYSYM_RETURN {
            Some(CompositorAction::SpawnTerminal)
        } else if keysym == KEYSYM_LOWER_D || keysym == KEYSYM_UPPER_D {
            Some(CompositorAction::ToggleLauncher)
        } else if keysym == KEYSYM_LOWER_Q || keysym == KEYSYM_UPPER_Q {
            Some(CompositorAction::CloseWindow)
        } else if keysym == KEYSYM_LOWER_F || keysym == KEYSYM_UPPER_F {
            Some(CompositorAction::ToggleFullscreen)
        } else if keysym == KEYSYM_LEFT {
            Some(CompositorAction::TileLeft)
        } else if keysym == KEYSYM_RIGHT {
            Some(CompositorAction::TileRight)
        } else if keysym == KEYSYM_TAB {
            Some(CompositorAction::CycleFocus)
        } else if mods.shift && (keysym == KEYSYM_LOWER_E || keysym == KEYSYM_UPPER_E) {
            Some(CompositorAction::ExitCompositor)
        } else {
            None
        }
    } else if mods.alt && keysym == KEYSYM_F4 {
        Some(CompositorAction::CloseWindow)
    } else {
        None
    }
}

// ---------------------------------------------------------------------
// Spec transitions
// ---------------------------------------------------------------------

/// What each action does to the state, and what it asks of the driver.
pub open spec fn execute_action_spec(d: DesktopModel, action: CompositorAction) -> (
    DesktopModel,
    ActionEffectModel,
) {
    match action {
        CompositorAction::SpawnTerminal => (
            d,
            ActionEffectModel { spawn: Some(terminal_cmd()), ..no_effect() },
        ),
        CompositorAction::ToggleLauncher => (
            DesktopModel { launcher: toggle_spec(d.launcher), ..d },
            no_effect(),
        ),
        CompositorAction::CloseWindow => {
            let close = match d.wm.focused {
                Some(i) => if i < d.wm.windows.len() {
                    Some(d.wm.windows[i as int].id)
                } else {
                    None
                },
                None => None,
            };
            (d, ActionEffectModel { close_window: close, ..no_effect() })
        },
        CompositorAction::ToggleFullscreen => (
            DesktopModel { wm: wm_toggle_spec(d.wm, d.output_w, d.output_h), ..d },
            no_effect(),
        ),
        CompositorAction::TileLeft => (
            DesktopModel {
                wm: tile_left_spec(d.wm, d.output_w as int, d.output_h as int),
                ..d
            },
            no_effect(),
        ),
        CompositorAction::TileRight => (
            DesktopModel {
                wm: tile_right_spec(d.wm, d.output_w as int, d.output_h as int),
                ..d
            },
            no_effect(),
        ),
        CompositorAction::CycleFocus => (
            DesktopModel { wm: cycle_spec(d.wm), ..d },
            no_effect(),
        ),
        CompositorAction::ExitCompositor => (
            d,
            ActionEffectModel { stop: true, ..no_effect() },
        ),
    }
}

/// A key event: on press, a matching binding is intercepted and
/// executed; anything else is forwarded unmodified.
pub open spec fn key_spec(d: DesktopModel, keysym: u32, pressed: bool) -> (
    DesktopModel,
    InputOutcomeModel,
) {
    if pressed {
        match binding_spec(d.modifiers, keysym) {
            Some(action) => {
                let (d2, eff) = execute_action_spec(d, action);
                (d2, InputOutcomeModel::KeyIntercepted(eff))
            },
            None => (d, InputOutcomeModel::KeyForward { keysym, pressed }),
        }
    } else {
        (d, InputOutcomeModel::KeyForward { keysym, pressed })
    }
}

/// Relative pointer motion: move the cursor clamped to the output
/// bounds; an active grab consumes the event, otherwise it is
/// forwarded to the surface under the cursor in local coordinates.
pub open spec fn motion_relative_spec(d: DesktopModel, dx: int, dy: int) -> (
    DesktopModel,
    InputOutcomeModel,
) {
    let nx = clamp_spec(d.wm.cursor_x + dx, 0, d.output_w as int) as i32;
    let ny = clamp_spec(d.wm.cursor_y + dy, 0, d.output_h as int) as i32;
    let wm1 = WmModel { cursor_x: nx, cursor_y: ny, ..d.wm };
    if wm1.grab is Some {
        (
            DesktopModel { wm: grab_motion_spec(wm1, nx as int, ny as int), ..d },
            InputOutcomeModel::MotionConsumed,
        )
    } else {
        let d1 = DesktopModel { wm: wm1, ..d };
        match topmost_hit_spec(wm1.windows, nx as int, ny as int) {
            Some(idx) => {
                let w = wm1.windows[idx];
                (
                    d1,
                    InputOutcomeModel::MotionForward {
                        surface: w.id,
                        local_x: clamp_to_i32(nx - w.x) as i32,
                        local_y: clamp_to_i32(ny - w.y) as i32,
                        abs_x: nx,
                        abs_y: ny,
                    },
                )
            },
            None => (d1, InputOutcomeModel::MotionNoTarget),
        }
    }
}

/// Absolute pointer motion: set the cursor directly (no grab handling
/// in absolute mode) and forward to the surface under it.
pub open spec fn motion_absolute_spec(d: DesktopModel, x: i32, y: i32) -> (
    DesktopModel,
    InputOutcomeModel,
) {
    let wm1 = WmModel { cursor_x: x, cursor_y: y, ..d.wm };
    let d1 = DesktopModel { wm: wm1, ..d };
    match topmost_hit_spec(wm1.windows, x as int, y as int) {
        Some(idx) => {
            let w = wm1.windows[idx];
            (
                d1,
                InputOutcomeModel::MotionForward {
                    surface: w.id,
                    local_x: clamp_to_i32(x - w.x) as i32,
                    local_y: clamp_to_i32(y - w.y) as i32,
                    abs_x: x,
                    abs_y: y,
                },
            )
        },
        None => (d1, InputOutcomeModel::MotionNoTarget),
    }
}

/// A button event.  On press, in priority order: a click in the panel
/// band is the panel's; a visible launcher may pick an application
/// (hiding the overlay); otherwise the click focuses the window under
/// the cursor and is forwarded.  Releases are always forwarded.
pub open spec fn button_spec(d: DesktopModel, button: u32, pressed: bool) -> (
    DesktopModel,
    InputOutcomeModel,
) {
    if !pressed {
        (d, InputOutcomeModel::ButtonForward { button, pressed })
    } else if d.wm.cursor_y < d.wm.panel_height {
        (d, InputOutcomeModel::ButtonPanel)
    } else {
        let click = if d.launcher.visible {
            handle_click_spec(
                d.launcher,
                d.wm.cursor_x as int,
                d.wm.cursor_y as int,
                d.output_w as int,
                d.output_h as int,
            )
        } else {
            None
        };
        match click {
            Some(cmd) => (
                DesktopModel {
                    launcher: LauncherModel { visible: false, ..d.launcher },
                    ..d
                },
                InputOutcomeModel::ButtonLaunch(cmd),
            ),
            None => (
                DesktopModel {
                    wm: focus_at_spec(d.wm, d.wm.cursor_x as int, d.wm.cursor_y as int),
                    ..d
                },
                InputOutcomeModel::ButtonForward { button, pressed },
            ),
        }
    }
}

/// The whole router as one function from state and event to new state
/// and outcome.
pub open spec fn handle_input_spec(d: DesktopModel, ev: InputEvent) -> (
    DesktopModel,
    InputOutcomeModel,
) {
    match ev {
        InputEvent::Keyboard { keysym, pressed } => key_spec(d, keysym, pressed),
        InputEvent::PointerMotion { dx, dy } => motion_relative_spec(d, dx as int, dy as int),
        InputEvent::PointerMotionAbsolute { x, y } => motion_absolute_spec(d, x, y),
        InputEvent::PointerButton { button, pressed } => button_spec(d, button, pressed),
        InputEvent::PointerAxis { horizontal, vertical } => (
            d,
            InputOutcomeModel::AxisForward { horizontal, vertical },
        ),
    }
}

// ---------------------------------------------------------------------
// Executable router
// ---------------------------------------------------------------------

pub struct InputHandler;

impl InputHandler {
    /// Record the modifier state the backend reports.
    pub fn set_modifiers(state: &mut DesktopState, mods: ModifierState)
        ensures
            final(state)@ == (DesktopModel { modifiers: mods, ..old(state)@ }),
            old(state)@.wf() ==> final(state)@.wf(),
    {
        state.modifiers = mods;
    }

    /// Check the static keybinding table.
    pub fn check_compositor_binding(mods: &ModifierState, keysym: u32) -> (r: Option<
        CompositorAction,
    >)
        ensures
            r == binding_spec(*mods, keysym),
    {
        if mods.logo {
            if keysym == KEYSYM_RETURN {
                Some(CompositorAction::SpawnTerminal)
            } else if keysym == KEYSYM_LOWER_D || keysym == KEYSYM_UPPER_D {
                Some(CompositorAction::ToggleLauncher)
            } else if keysym == KEYSYM_LOWER_Q || keysym == KEYSYM_UPPER_Q {
                Some(CompositorAction::CloseWindow)
            } else if keysym == KEYSYM_LOWER_F || keysym == KEYSYM_UPPER_F {
                Some(CompositorAction::ToggleFullscreen)
            } else if keysym == KEYSYM_LEFT {
                Some(CompositorAction::TileLeft)
            } else if keysym == KEYSYM_RIGHT {
                Some(CompositorAction::TileRight)
            } else if keysym == KEYSYM_TAB {
                Some(CompositorAction::CycleFocus)
            } else if mods.shift && (keysym == KEYSYM_LOWER_E || keysym == KEYSYM_UPPER_E) {
                Some(CompositorAction::ExitCompositor)
            } else {
                None
            }
        } else if mods.alt && keysym == KEYSYM_F4 {
            Some(CompositorAction::CloseWindow)
        } else {
            None
        }
    }

    /// Execute one compositor action on the state; what needs the
    /// backend comes back as the effect.
    pub fn execute_action(state: &mut DesktopState, action: CompositorAction) -> (r: ActionEffect)
        requires
            old(state)@.wf(),
        ensures
            (final(state)@, r@) == execute_action_spec(old(state)@, action),
            final(state)@.wf(),
    {
        match action {
            CompositorAction::SpawnTerminal => {
                let cmd: Vec<u8> = vec![97, 108, 97, 99, 114, 105, 116, 116, 121];
                proof {
                    assert(cmd@ =~= terminal_cmd());
                }
                ActionEffect { spawn: Some(cmd), close_window: None, stop: false }
            },
            CompositorAction::ToggleLauncher => {
                state.launcher.toggle();
                ActionEffect { spawn: None, close_window: None, stop: false }
            },
            CompositorAction::CloseWindow => {
                let close = state.window_manager.close_focused();
                ActionEffect { spawn: None, close_window: close, stop: false }
            },
            CompositorAction::ToggleFullscreen => {
                proof {
                    lemma_toggle_preserves_wf(state@.wm, state@.output_w, state@.output_h);
                }
                state.window_manager.toggle_fullscreen(state.output_w, state.output_h);
                ActionEffect { spawn: None, close_window: None, stop: false }
            },
            CompositorAction::TileLeft => {
                proof {
                    crate::window::lemma_tile_preserves_wf(
                        state@.wm,
                        state@.output_w as int,
                        state@.output_h as int,
                    );
                }
                state.window_manager.tile_left(state.output_w, state.output_h);
                ActionEffect { spawn: None, close_window: None, stop: false }
            },
            CompositorAction::TileRight => {
                proof {
                    crate::window::lemma_tile_preserves_wf(
                        state@.wm,
                        state@.output_w as int,
                        state@.output_h as int,
                    );
                }
                state.window_manager.tile_right(state.output_w, state.output_h);
                ActionEffect { spawn: None, close_window: None, stop: false }
            },
            CompositorAction::CycleFocus => {
                proof {
                    lemma_cycle_preserves_wf(state@.wm);
                }
                state.window_manager.cycle_focus();
                ActionEffect { spawn: None, close_window: None, stop: false }
            },
            CompositorAction::ExitCompositor => {
                ActionEffect { spawn: None, close_window: None, stop: true }
            },
        }
    }

    /// Route one backend input event.
    pub fn handle_input(state: &mut DesktopState, event: InputEvent) -> (r: InputOutcome)
        requires
            old(state)@.wf(),
        ensures
            (final(state)@, r@) == handle_input_spec(old(state)@, event),
            final(state)@.wf(),
    {
        match event {
            InputEvent::Keyboard { keysym, pressed } => {
                if pressed {
                    let binding = Self::check_compositor_binding(&state.modifiers, keysym);
                    match binding {
                        Some(action) => {
                            let eff = Self::execute_action(state, action);
                            InputOutcome::KeyIntercepted(eff)
                        },
                        None => InputOutcome::KeyForward { keysym, pressed },
                    }
                } else {
                    InputOutcome::KeyForward { keysym, pressed }
                }
            },
            InputEvent::PointerMotion { dx, dy } => {
                let (nx, ny) = state.window_manager.update_cursor_relative(
                    dx,
                    dy,
                    state.output_w,
                    state.output_h,
                );
                proof {
                    crate::window::lemma_grab_motion_preserves_wf(
                        state@.wm,
                        nx as int,
                        ny as int,
                    );
                }
                if state.window_manager.handle_pointer_motion(nx, ny) {
                    return InputOutcome::MotionConsumed;
                }
                match state.window_manager.surface_under(nx, ny) {
                    Some((surface, local)) => InputOutcome::MotionForward {
                        surface,
                        local_x: local.0,
                        local_y: local.1,
                        abs_x: nx,
                        abs_y: ny,
                    },
                    None => InputOutcome::MotionNoTarget,
                }
            },
            InputEvent::PointerMotionAbsolute { x, y } => {
                state.window_manager.set_cursor_position(x, y);
                match state.window_manager.surface_under(x, y) {
                    Some((surface, local)) => InputOutcome::MotionForward {
                        surface,
                        local_x: local.0,
                        local_y: local.1,
                        abs_x: x,
                        abs_y: y,
                    },
                    None => InputOutcome::MotionNoTarget,
                }
            },
            InputEvent::PointerButton { button, pressed } => {
                if !pressed {
                    return InputOutcome::ButtonForward { button, pressed };
                }
                let (cx, cy) = state.window_manager.cursor_position();
                if cy < state.window_manager.panel_height {
                    let _ = state.panel.handle_click(cx, cy);
                    return InputOutcome::ButtonPanel;
                }
                if state.launcher.is_visible() {
                    match state.launcher.handle_click(cx, cy, state.output_w, state.output_h) {
                        Some(cmd) => {
                            state.launcher.dismiss();
                            return InputOutcome::ButtonLaunch(cmd);
                        },
                        None => {},
                    }
                }
                proof {
                    lemma_focus_at_preserves_wf(
                        state@.wm,
                        state@.wm.cursor_x as int,
                        state@.wm.cursor_y as int,
                    );
                }
                state.window_manager.focus_at(cx, cy);
                InputOutcome::ButtonForward { button, pressed }
            },
            InputEvent::PointerAxis { horizontal, vertical } => InputOutcome::AxisForward {
                horizontal,
                vertical,
            },
        }
    }
}

} // verus!
