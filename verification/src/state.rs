//! The compositor context: one object owning the window manager, the
//! status panel, the application launcher, the tracked modifier state
//! and the output bounds.  The event loop driver owns a value of this
//! type and passes it into every handler call; there is no ambient
//! state.

use vstd::prelude::*;

use crate::input::ModifierState;
use crate::launcher::{AppLauncher, LauncherModel};
use crate::panel::{PanelModel, StatusPanel};
use crate::window::{
    add_spec, lemma_add_preserves_wf, lemma_remove_preserves_wf, remove_spec, WindowElement,
    WindowManager, WmModel,
};

verus! {

/// Everything the compositor mutates, in one place.
pub struct DesktopState {
    pub window_manager: WindowManager,
    pub panel: StatusPanel,
    pub launcher: AppLauncher,
    /// Running modifier state fed by the input backend.
    pub modifiers: ModifierState,
    /// Current output bounds; every layout and clamp reads these.
    pub output_w: i32,
    pub output_h: i32,
}

/// Mathematical snapshot of the whole compositor state.
pub ghost struct DesktopModel {
    pub wm: WmModel,
    pub panel: PanelModel,
    pub launcher: LauncherModel,
    pub modifiers: ModifierState,
    pub output_w: i32,
    pub output_h: i32,
}

impl DesktopModel {
    /// Well-formedness of the whole state: the window manager and the
    /// launcher hold their invariants and the output bounds are sizes.
    pub open spec fn wf(self) -> bool {
        &&& self.wm.wf()
        &&& self.launcher.wf()
        &&& self.output_w >= 0
        &&& self.output_h >= 0
    }
}

impl View for DesktopState {
    type V = DesktopModel;

    open spec fn view(&self) -> DesktopModel {
        DesktopModel {
            wm: self.window_manager@,
            panel: self.panel@,
            launcher: self.launcher@,
            modifiers: self.modifiers,
            output_w: self.output_w,
            output_h: self.output_h,
        }
    }
}

impl DesktopState {
    /// A fresh compositor state around an already-built launcher, with
    /// the default output bounds.
    pub fn new(launcher: AppLauncher) -> (r: DesktopState)
        requires
            launcher@.wf(),
        ensures
            r@.wm == (WmModel {
                windows: Seq::<WindowElement>::empty(),
                focused: None,
                cursor_x: 0,
                cursor_y: 0,
                grab: None,
                panel_height: crate::window::PANEL_BAND,
            }),
            r@.panel == (PanelModel {
                clock_text: Seq::<u8>::empty(),
                last_update_sec: 0,
                battery_percent: -1i32,
                battery_charging: false,
                network_status: crate::panel::NetworkStatus::Unknown,
                network_name: Seq::<u8>::empty(),
            }),
            r@.launcher == launcher@,
            r@.modifiers == ModifierState::default_spec(),
            r@.output_w == 1920 && r@.output_h == 1080,
            r@.wf(),
    {
        DesktopState {
            window_manager: WindowManager::new(),
            panel: StatusPanel::new(),
            launcher,
            modifiers: ModifierState {
                ctrl: false,
                alt: false,
                shift: false,
                logo: false,
            },
            output_w: 1920,
            output_h: 1080,
        }
    }

    /// Backend resize notification: the new output bounds.
    pub fn on_resize(&mut self, w: i32, h: i32)
        requires
            w >= 0,
            h >= 0,
        ensures
            final(self)@ == (DesktopModel { output_w: w, output_h: h, ..old(self)@ }),
            old(self)@.wf() ==> final(self)@.wf(),
    {
        self.output_w = w;
        self.output_h = h;
    }

    /// A client's toplevel surface appeared: register a window for it,
    /// centered and focused.
    pub fn on_new_toplevel(&mut self, id: u64)
        ensures
            final(self)@ == (DesktopModel {
                wm: add_spec(
                    old(self)@.wm,
                    WindowElement {
                        id,
                        x: 100,
                        y: 100,
                        w: 800,
                        h: 600,
                        fullscreen: false,
                        saved_geometry: None,
                    },
                    old(self)@.output_w as int,
                    old(self)@.output_h as int,
                ),
                ..old(self)@
            }),
            old(self)@.wf() ==> final(self)@.wf(),
    {
        let win = WindowElement::new(id);
        proof {
            if self@.wf() {
                lemma_add_preserves_wf(
                    self@.wm,
                    win,
                    self@.output_w as int,
                    self@.output_h as int,
                );
            }
        }
        self.window_manager.add_window(win, self.output_w, self.output_h);
    }

    /// A client's toplevel surface went away: drop its window and
    /// renormalize the focus.
    pub fn on_toplevel_destroyed(&mut self, id: u64)
        ensures
            final(self)@ == (DesktopModel { wm: remove_spec(old(self)@.wm, id), ..old(self)@ }),
            old(self)@.wf() ==> final(self)@.wf(),
    {
        proof {
            if self@.wf() {
                lemma_remove_preserves_wf(self@.wm, id);
            }
        }
        self.window_manager.remove_window(id);
    }

    /// A surface committed new content; the registry tracks no
    /// per-commit state, so nothing changes.
    pub fn on_commit(&mut self, id: u64)
        ensures
            *final(self) == *old(self),
    {
        self.window_manager.handle_commit(id);
    }
}

} // verus!
