//! Window manager: the registry of toplevel windows, the focus stack,
//! the interactive grab state machine, and the layout operations
//! (centering, tiling, fullscreen).
//!
//! Windows refer to their client surface only through an opaque numeric
//! identity; the protocol layer owns the surface itself.  The window
//! sequence is the paint/focus stack: the last element is topmost.
//!
//! Every mutating operation is specified as a pure transition on
//! [`WmModel`], the mathematical snapshot of the manager, and the
//! executable method is proved to implement exactly that transition.

use vstd::prelude::*;

use crate::geometry::{clamp_spec, clamp_to_i32, rect_contains_spec, sub_clamped, Rect};

verus! {

/// Height in pixels of the band at the top of the output that the
/// status panel reserves; layout never places a window above it.
pub const PANEL_BAND: i32 = 32;

/// Smallest width an interactive resize can reach.
pub const MIN_RESIZE_W: i32 = 200;

/// Smallest height an interactive resize can reach.
pub const MIN_RESIZE_H: i32 = 150;

/// One toplevel window: surface identity, geometry, fullscreen state.
#[derive(Clone, Copy, Debug, PartialEq, Eq, Structural)]
pub struct WindowElement {
    /// Identity of the externally-owned client surface; a back-reference
    /// used for lookup and event delivery only.
    pub id: u64,
    /// Top-left corner, output coordinates.
    pub x: i32,
    pub y: i32,
    /// Current size.
    pub w: i32,
    pub h: i32,
    /// Whether the window currently covers the whole output.
    pub fullscreen: bool,
    /// Geometry to restore on leaving fullscreen; present only while
    /// fullscreen.
    pub saved_geometry: Option<Rect>,
}

impl WindowElement {
    /// A window may carry a saved geometry only while it is fullscreen.
    pub open spec fn inv(self) -> bool {
        self.saved_geometry is Some ==> self.fullscreen
    }

    /// Current bounding rectangle as a spec value.
    pub open spec fn geometry_spec(self) -> Rect {
        Rect { x: self.x, y: self.y, w: self.w, h: self.h }
    }

    /// Create a window for the surface with the given identity, at the
    /// default position and size.
    pub fn new(id: u64) -> (win: WindowElement)
        ensures
            win == (WindowElement {
                id,
                x: 100,
                y: 100,
                w: 800,
                h: 600,
                fullscreen: false,
                saved_geometry: None,
            }),
    {
        WindowElement { id, x: 100, y: 100, w: 800, h: 600, fullscreen: false, saved_geometry: None }
    }

    /// The surface identity this window stands for.
    pub fn toplevel(&self) -> (r: u64)
        ensures
            r == self.id,
    {
        self.id
    }

    /// Current bounding rectangle.
    pub fn geometry(&self) -> (r: Rect)
        ensures
            r == self.geometry_spec(),
    {
        Rect { x: self.x, y: self.y, w: self.w, h: self.h }
    }

    /// Move the window.
    pub fn set_position(&mut self, x: i32, y: i32)
        ensures
            *final(self) == (WindowElement { x, y, ..*old(self) }),
    {
        self.x = x;
        self.y = y;
    }

    /// Resize the window.
    pub fn set_size(&mut self, w: i32, h: i32)
        ensures
            *final(self) == (WindowElement { w, h, ..*old(self) }),
    {
        self.w = w;
        self.h = h;
    }

    /// Axis-aligned bounding-box containment of a point, edges included.
    pub fn contains_point(&self, px: i32, py: i32) -> (b: bool)
        ensures
            b == rect_contains_spec(self.geometry_spec(), px as int, py as int),
    {
        self.geometry().contains(px, py)
    }
}

/// Which geometry a grab transforms.
#[derive(Clone, Copy, Debug, PartialEq, Eq, Structural)]
pub enum GrabKind {
    Move,
    Resize,
}

/// State captured when an interactive move or resize begins.
#[derive(Clone, Copy, Debug, PartialEq, Eq, Structural)]
pub struct GrabState {
    /// Index into the window stack of the grabbed window.
    pub window_index: usize,
    pub kind: GrabKind,
    /// Cursor position when the grab started.
    pub cursor_x: i32,
    pub cursor_y: i32,
    /// Window position when the grab started.
    pub win_x: i32,
    pub win_y: i32,
    /// Window size when the grab started.
    pub win_w: i32,
    pub win_h: i32,
}

/// Mathematical snapshot of the window manager.
pub ghost struct WmModel {
    pub windows: Seq<WindowElement>,
    pub focused: Option<usize>,
    pub cursor_x: i32,
    pub cursor_y: i32,
    pub grab: Option<GrabState>,
    pub panel_height: i32,
}

impl WmModel {
    /// Well-formedness: the focus index is `None` exactly when the stack
    /// is empty and in range otherwise, and every window satisfies its
    /// own invariant.
    pub open spec fn wf(self) -> bool {
        &&& (self.focused is None <==> self.windows.len() == 0)
        &&& (self.focused matches Some(i) ==> i < self.windows.len())
        &&& (forall|k: int| 0 <= k < self.windows.len() ==> #[trigger] self.windows[k].inv())
    }
}

/// The window manager: stack-ordered windows, focus, cursor, grab.
pub struct WindowManager {
    /// All managed windows in stack order; the last one is topmost.
    pub windows: Vec<WindowElement>,
    /// Index of the focused window; `None` exactly when no windows.
    pub focused: Option<usize>,
    /// Current cursor position.
    pub cursor_x: i32,
    pub cursor_y: i32,
    /// Active grab, if an interactive move/resize is in progress.
    pub grab: Option<GrabState>,
    /// Height of the reserved panel band at the top of the output.
    pub panel_height: i32,
}

impl View for WindowManager {
    type V = WmModel;

    open spec fn view(&self) -> WmModel {
        WmModel {
            windows: self.windows@,
            focused: self.focused,
            cursor_x: self.cursor_x,
            cursor_y: self.cursor_y,
            grab: self.grab,
            panel_height: self.panel_height,
        }
    }
}

// ---------------------------------------------------------------------
// Spec transitions
// ---------------------------------------------------------------------

/// Where `add` places a new window: centered horizontally, and centered
/// vertically within the area below the panel band, never above it.
pub open spec fn add_position_spec(m: WmModel, win: WindowElement, out_w: int, out_h: int) -> (
    int,
    int,
) {
    let x = if out_w - win.w >= 0 {
        (out_w - win.w) / 2
    } else {
        0
    };
    let yoff = out_h - m.panel_height - win.h;
    let y = if yoff >= 0 {
        m.panel_height + yoff / 2
    } else {
        m.panel_height as int
    };
    (x, y)
}

/// `add`: place the window, append it to the top of the stack, focus it.
pub open spec fn add_spec(m: WmModel, win: WindowElement, out_w: int, out_h: int) -> WmModel {
    let (x, y) = add_position_spec(m, win, out_w, out_h);
    let placed = WindowElement { x: x as i32, y: y as i32, ..win };
    WmModel {
        windows: m.windows.push(placed),
        focused: Some((m.windows.len()) as usize),
        ..m
    }
}

/// Index of the first window with the given surface identity.
pub open spec fn find_window_spec(ws: Seq<WindowElement>, id: u64) -> Option<int>
    decreases ws.len(),
{
    if ws.len() == 0 {
        None
    } else if ws[0].id == id {
        Some(0int)
    } else {
        match find_window_spec(ws.drop_first(), id) {
            Some(i) => Some(i + 1),
            None => None,
        }
    }
}

/// `find_window_spec` returns exactly the first index carrying the
/// identity, or `None` when no window carries it.
pub proof fn lemma_find_window_char(ws: Seq<WindowElement>, id: u64)
    ensures
        match find_window_spec(ws, id) {
            Some(i) => {
                &&& 0 <= i < ws.len()
                &&& ws[i].id == id
                &&& forall|j: int| 0 <= j < i ==> (#[trigger] ws[j]).id != id
            },
            None => forall|j: int| 0 <= j < ws.len() ==> (#[trigger] ws[j]).id != id,
        },
    decreases ws.len(),
{
    if ws.len() == 0 {
    } else if ws[0].id == id {
    } else {
        let dl = ws.drop_first();
        lemma_find_window_char(dl, id);
        match find_window_spec(dl, id) {
            Some(i) => {
                assert(dl[i] == ws[i + 1]);
                assert forall|j: int| 0 <= j < i + 1 implies (#[trigger] ws[j]).id != id by {
                    if j > 0 {
                        assert(dl[j - 1] == ws[j]);
                    }
                }
            },
            None => {
                assert forall|j: int| 0 <= j < ws.len() implies (#[trigger] ws[j]).id != id by {
                    if j > 0 {
                        assert(dl[j - 1] == ws[j]);
                    }
                }
            },
        }
    }
}

/// How `remove` renormalizes the focus index once the window at `idx`
/// has left a stack that now has `new_len` windows.
pub open spec fn focus_after_remove_spec(
    focused: Option<usize>,
    idx: int,
    new_len: int,
) -> Option<usize> {
    if new_len == 0 {
        None
    } else {
        match focused {
            Some(f) => if f >= new_len {
                Some((new_len - 1) as usize)
            } else if f > idx {
                Some((f - 1) as usize)
            } else {
                Some(f)
            },
            None => None,
        }
    }
}

/// `remove`: drop the first window with this identity, if any, and
/// renormalize the focus index.
pub open spec fn remove_spec(m: WmModel, id: u64) -> WmModel {
    match find_window_spec(m.windows, id) {
        Some(idx) => {
            let ws = m.windows.remove(idx);
            WmModel { windows: ws, focused: focus_after_remove_spec(m.focused, idx, ws.len() as int), ..m }
        },
        None => m,
    }
}

/// Index of the topmost window containing the point, if any.
pub open spec fn topmost_hit_spec(ws: Seq<WindowElement>, px: int, py: int) -> Option<int>
    decreases ws.len(),
{
    if ws.len() == 0 {
        None
    } else if rect_contains_spec(ws.last().geometry_spec(), px, py) {
        Some(ws.len() - 1)
    } else {
        topmost_hit_spec(ws.drop_last(), px, py)
    }
}

/// `topmost_hit_spec` returns exactly the highest index whose window
/// contains the point, or `None` when no window does.
pub proof fn lemma_topmost_hit_char(ws: Seq<WindowElement>, px: int, py: int)
    ensures
        match topmost_hit_spec(ws, px, py) {
            Some(i) => {
                &&& 0 <= i < ws.len()
                &&& rect_contains_spec(ws[i].geometry_spec(), px, py)
                &&& forall|j: int| i < j < ws.len() ==> !rect_contains_spec(
                    (#[trigger] ws[j]).geometry_spec(),
                    px,
                    py,
                )
            },
            None => forall|j: int| 0 <= j < ws.len() ==> !rect_contains_spec(
                (#[trigger] ws[j]).geometry_spec(),
                px,
                py,
            ),
        },
    decreases ws.len(),
{
    if ws.len() == 0 {
    } else if rect_contains_spec(ws.last().geometry_spec(), px, py) {
    } else {
        let dl = ws.drop_last();
        lemma_topmost_hit_char(dl, px, py);
        match topmost_hit_spec(dl, px, py) {
            Some(i) => {
                assert(dl[i] == ws[i]);
                assert forall|j: int| i < j < ws.len() implies !rect_contains_spec(
                    (#[trigger] ws[j]).geometry_spec(),
                    px,
                    py,
                ) by {
                    if j < ws.len() - 1 {
                        assert(dl[j] == ws[j]);
                    } else {
                        assert(ws[j] == ws.last());
                    }
                }
            },
            None => {
                assert forall|j: int| 0 <= j < ws.len() implies !rect_contains_spec(
                    (#[trigger] ws[j]).geometry_spec(),
                    px,
                    py,
                ) by {
                    if j < ws.len() - 1 {
                        assert(dl[j] == ws[j]);
                    } else {
                        assert(ws[j] == ws.last());
                    }
                }
            },
        }
    }
}

/// Promote the window at `idx` to the top of the stack and focus it.
pub open spec fn promote_spec(m: WmModel, idx: int) -> WmModel {
    WmModel {
        windows: m.windows.remove(idx).push(m.windows[idx]),
        focused: Some((m.windows.len() - 1) as usize),
        ..m
    }
}

/// `focus_at`: hit-test top-down; on a hit, promote the hit window to
/// the top and focus it; otherwise change nothing.
pub open spec fn focus_at_spec(m: WmModel, px: int, py: int) -> WmModel {
    match topmost_hit_spec(m.windows, px, py) {
        Some(idx) => promote_spec(m, idx),
        None => m,
    }
}

/// `cycle_focus`: with more than one window, advance the focus index by
/// one modulo the count, then promote the newly focused window to the
/// top of the stack.
pub open spec fn cycle_spec(m: WmModel) -> WmModel {
    if m.windows.len() <= 1 {
        m
    } else {
        let next = match m.focused {
            Some(i) => ((i + 1) % (m.windows.len() as int)),
            None => 0int,
        };
        promote_spec(m, next)
    }
}

/// One window after `toggle_fullscreen`: entering saves the geometry
/// and covers the output; leaving restores the saved geometry, or, if
/// nothing is saved, only clears the flag.
pub open spec fn toggle_window_spec(win: WindowElement, out_w: i32, out_h: i32) -> WindowElement {
    if win.fullscreen {
        match win.saved_geometry {
            Some(r) => WindowElement {
                x: r.x,
                y: r.y,
                w: r.w,
                h: r.h,
                fullscreen: false,
                saved_geometry: None,
                ..win
            },
            None => WindowElement { fullscreen: false, saved_geometry: None, ..win },
        }
    } else {
        WindowElement {
            x: 0,
            y: 0,
            w: out_w,
            h: out_h,
            fullscreen: true,
            saved_geometry: Some(win.geometry_spec()),
            ..win
        }
    }
}

/// Apply `f`-like update to the focused window only; identity if the
/// focus index is absent or out of range.
pub open spec fn with_focused_spec(m: WmModel, updated: WindowElement, i: int) -> WmModel {
    WmModel { windows: m.windows.update(i, updated), ..m }
}

/// `toggle_fullscreen` over the whole manager.
pub open spec fn toggle_spec(m: WmModel, out_w: i32, out_h: i32) -> WmModel {
    match m.focused {
        Some(i) => if i < m.windows.len() {
            with_focused_spec(m, toggle_window_spec(m.windows[i as int], out_w, out_h), i as int)
        } else {
            m
        },
        None => m,
    }
}

/// Geometry of the left half of the output area below the panel band.
/// Tiling always leaves fullscreen, and with it drops any saved
/// geometry: one is kept only while fullscreen.
pub open spec fn tile_left_window_spec(win: WindowElement, ph: i32, out_w: int, out_h: int) -> WindowElement {
    WindowElement {
        x: 0,
        y: ph,
        w: (out_w / 2) as i32,
        h: clamp_to_i32(out_h - ph) as i32,
        fullscreen: false,
        saved_geometry: None,
        ..win
    }
}

/// Geometry of the right half of the output area below the panel band.
pub open spec fn tile_right_window_spec(win: WindowElement, ph: i32, out_w: int, out_h: int) -> WindowElement {
    WindowElement {
        x: (out_w / 2) as i32,
        y: ph,
        w: (out_w / 2) as i32,
        h: clamp_to_i32(out_h - ph) as i32,
        fullscreen: false,
        saved_geometry: None,
        ..win
    }
}

/// `tile_left` over the whole manager.
pub open spec fn tile_left_spec(m: WmModel, out_w: int, out_h: int) -> WmModel {
    match m.focused {
        Some(i) => if i < m.windows.len() {
            with_focused_spec(
                m,
                tile_left_window_spec(m.windows[i as int], m.panel_height, out_w, out_h),
                i as int,
            )
        } else {
            m
        },
        None => m,
    }
}

/// `tile_right` over the whole manager.
pub open spec fn tile_right_spec(m: WmModel, out_w: int, out_h: int) -> WmModel {
    match m.focused {
        Some(i) => if i < m.windows.len() {
            with_focused_spec(
                m,
                tile_right_window_spec(m.windows[i as int], m.panel_height, out_w, out_h),
                i as int,
            )
        } else {
            m
        },
        None => m,
    }
}

/// `begin_move` / `begin_resize`: capture cursor and window geometry.
pub open spec fn begin_grab_spec(m: WmModel, kind: GrabKind) -> WmModel {
    match m.focused {
        Some(i) => if i < m.windows.len() {
            let w = m.windows[i as int];
            WmModel {
                grab: Some(GrabState {
                    window_index: i,
                    kind,
                    cursor_x: m.cursor_x,
                    cursor_y: m.cursor_y,
                    win_x: w.x,
                    win_y: w.y,
                    win_w: w.w,
                    win_h: w.h,
                }),
                ..m
            }
        } else {
            m
        },
        None => m,
    }
}

/// The window geometry produced by grab motion to `(px, py)`.
///
/// A move re-applies the captured position plus the cursor delta, with
/// the top edge kept below the panel band; a resize re-applies the
/// captured size plus the delta, clamped to the minimum size.  Sums are
/// clamped into the `i32` range.
pub open spec fn grab_motion_window_spec(
    g: GrabState,
    win: WindowElement,
    ph: i32,
    px: int,
    py: int,
) -> WindowElement {
    let dx = px - g.cursor_x;
    let dy = py - g.cursor_y;
    match g.kind {
        GrabKind::Move => {
            let nx = clamp_to_i32(g.win_x + dx);
            let ny = clamp_to_i32(if g.win_y + dy < ph {
                ph as int
            } else {
                g.win_y + dy
            });
            WindowElement { x: nx as i32, y: ny as i32, ..win }
        },
        GrabKind::Resize => {
            let nw = clamp_to_i32(if g.win_w + dx < MIN_RESIZE_W {
                MIN_RESIZE_W as int
            } else {
                g.win_w + dx
            });
            let nh = clamp_to_i32(if g.win_h + dy < MIN_RESIZE_H {
                MIN_RESIZE_H as int
            } else {
                g.win_h + dy
            });
            WindowElement { w: nw as i32, h: nh as i32, ..win }
        },
    }
}

/// `handle_pointer_motion` while a grab is active; identity when the
/// grabbed index has gone stale.
pub open spec fn grab_motion_spec(m: WmModel, px: int, py: int) -> WmModel {
    match m.grab {
        Some(g) => if g.window_index < m.windows.len() {
            with_focused_spec(
                m,
                grab_motion_window_spec(
                    g,
                    m.windows[g.window_index as int],
                    m.panel_height,
                    px,
                    py,
                ),
                g.window_index as int,
            )
        } else {
            m
        },
        None => m,
    }
}

// ---------------------------------------------------------------------
// Executable operations
// ---------------------------------------------------------------------

impl WindowManager {
    /// An empty manager: no windows, no focus, cursor at the origin.
    pub fn new() -> (wm: WindowManager)
        ensures
            wm@ == (WmModel {
                windows: Seq::<WindowElement>::empty(),
                focused: None,
                cursor_x: 0,
                cursor_y: 0,
                grab: None,
                panel_height: PANEL_BAND,
            }),
            wm@.wf(),
    {
        let wm = WindowManager {
            windows: Vec::new(),
            focused: None,
            cursor_x: 0,
            cursor_y: 0,
            grab: None,
            panel_height: PANEL_BAND,
        };
        proof {
            assert(wm@.windows =~= Seq::<WindowElement>::empty());
        }
        wm
    }

    /// Add a window: center it below the panel band, put it on top of
    /// the stack, focus it.
    pub fn add_window(&mut self, window: WindowElement, out_w: i32, out_h: i32)
        ensures
            final(self)@ == add_spec(old(self)@, window, out_w as int, out_h as int),
    {
        let mut window = window;
        let dx: i64 = out_w as i64 - window.w as i64;
        let x: i32 = if dx >= 0 {
            (dx / 2) as i32
        } else {
            0
        };
        let dy: i64 = out_h as i64 - self.panel_height as i64 - window.h as i64;
        let y: i32 = if dy >= 0 {
            (self.panel_height as i64 + dy / 2) as i32
        } else {
            self.panel_height
        };
        window.set_position(x, y);
        self.windows.push(window);
        self.focused = Some(self.windows.len() - 1);
    }

    /// Remove the first window with this surface identity, if present,
    /// and renormalize the focus index; no-op when not found.
    pub fn remove_window(&mut self, id: u64)
        ensures
            final(self)@ == remove_spec(old(self)@, id),
    {
        let found = self.find_window(id);
        match found {
            None => {},
            Some(idx) => {
                self.windows.remove(idx);
                if self.windows.len() == 0 {
                    self.focused = None;
                } else {
                    match self.focused {
                        Some(f) => {
                            if f >= self.windows.len() {
                                self.focused = Some(self.windows.len() - 1);
                            } else if f > idx {
                                self.focused = Some(f - 1);
                            }
                        },
                        None => {},
                    }
                }
            },
        }
    }

    /// Index of the first window with the given surface identity.
    fn find_window(&self, id: u64) -> (r: Option<usize>)
        ensures
            match r {
                Some(u) => u < self@.windows.len() && find_window_spec(self@.windows, id)
                    == Some(u as int),
                None => find_window_spec(self@.windows, id) is None,
            },
    {
        let mut i: usize = 0;
        while i < self.windows.len()
            invariant
                i <= self.windows@.len(),
                forall|j: int| 0 <= j < i ==> (#[trigger] self.windows@[j]).id != id,
            decreases self.windows@.len() - i,
        {
            if self.windows[i].id == id {
                proof {
                    lemma_find_window_char(self.windows@, id);
                }
                return Some(i);
            }
            i += 1;
        }
        proof {
            lemma_find_window_char(self.windows@, id);
        }
        None
    }

    /// Index of the topmost window containing the point.
    fn topmost_hit(&self, px: i32, py: i32) -> (r: Option<usize>)
        ensures
            match r {
                Some(u) => u < self@.windows.len() && topmost_hit_spec(
                    self@.windows,
                    px as int,
                    py as int,
                ) == Some(u as int),
                None => topmost_hit_spec(self@.windows, px as int, py as int) is None,
            },
    {
        let mut i: usize = self.windows.len();
        while i > 0
            invariant
                i <= self.windows@.len(),
                forall|j: int| i <= j < self.windows@.len() ==> !rect_contains_spec(
                    (#[trigger] self.windows@[j]).geometry_spec(),
                    px as int,
                    py as int,
                ),
            decreases i,
        {
            if self.windows[i - 1].contains_point(px, py) {
                proof {
                    lemma_topmost_hit_char(self.windows@, px as int, py as int);
                }
                return Some(i - 1);
            }
            i -= 1;
        }
        proof {
            lemma_topmost_hit_char(self.windows@, px as int, py as int);
        }
        None
    }

    /// Surface-commit notification; geometry tracking is external, so
    /// the registry has nothing to update.
    pub fn handle_commit(&mut self, id: u64)
        ensures
            *final(self) == *old(self),
    {
        let _ = id;
    }

    /// All windows in stack order; the last one is topmost.
    pub fn windows(&self) -> (r: &Vec<WindowElement>)
        ensures
            r@ == self@.windows,
    {
        &self.windows
    }

    /// The focused window, if any window exists and the index is valid.
    pub fn focused_window(&self) -> (r: Option<&WindowElement>)
        ensures
            match self.focused {
                Some(i) => if i < self@.windows.len() {
                    r matches Some(w) && *w == self@.windows[i as int]
                } else {
                    r is None
                },
                None => r is None,
            },
    {
        match self.focused {
            Some(i) => if i < self.windows.len() {
                Some(&self.windows[i])
            } else {
                None
            },
            None => None,
        }
    }

    /// The surface identity that should be asked to close: the focused
    /// window's.  Closing happens externally; the registry changes only
    /// on the destroyed notification.
    pub fn close_focused(&self) -> (r: Option<u64>)
        ensures
            match self.focused {
                Some(i) => if i < self@.windows.len() {
                    r == Some(self@.windows[i as int].id)
                } else {
                    r is None
                },
                None => r is None,
            },
    {
        match self.focused {
            Some(i) => if i < self.windows.len() {
                Some(self.windows[i].id)
            } else {
                None
            },
            None => None,
        }
    }

    /// Toggle fullscreen on the focused window.
    pub fn toggle_fullscreen(&mut self, out_w: i32, out_h: i32)
        ensures
            final(self)@ == toggle_spec(old(self)@, out_w, out_h),
    {
        match self.focused {
            Some(idx) => {
                if idx < self.windows.len() {
                    let win = self.windows[idx];
                    let updated = if win.fullscreen {
                        match win.saved_geometry {
                            Some(r) => WindowElement {
                                x: r.x,
                                y: r.y,
                                w: r.w,
                                h: r.h,
                                fullscreen: false,
                                saved_geometry: None,
                                ..win
                            },
                            None => WindowElement { fullscreen: false, saved_geometry: None, ..win },
                        }
                    } else {
                        WindowElement {
                            x: 0,
                            y: 0,
                            w: out_w,
                            h: out_h,
                            fullscreen: true,
                            saved_geometry: Some(win.geometry()),
                            ..win
                        }
                    };
                    self.windows.set(idx, updated);
                }
            },
            None => {},
        }
    }

    /// Tile the focused window to the left half of the area below the
    /// panel band; always leaves fullscreen.
    pub fn tile_left(&mut self, out_w: i32, out_h: i32)
        requires
            out_w >= 0,
        ensures
            final(self)@ == tile_left_spec(old(self)@, out_w as int, out_h as int),
    {
        match self.focused {
            Some(idx) => {
                if idx < self.windows.len() {
                    let win = self.windows[idx];
                    let h = sub_clamped(out_h, self.panel_height);
                    let updated = WindowElement {
                        x: 0,
                        y: self.panel_height,
                        w: out_w / 2,
                        h,
                        fullscreen: false,
                        saved_geometry: None,
                        ..win
                    };
                    self.windows.set(idx, updated);
                }
            },
            None => {},
        }
    }

    /// Tile the focused window to the right half of the area below the
    /// panel band; always leaves fullscreen.
    pub fn tile_right(&mut self, out_w: i32, out_h: i32)
        requires
            out_w >= 0,
        ensures
            final(self)@ == tile_right_spec(old(self)@, out_w as int, out_h as int),
    {
        match self.focused {
            Some(idx) => {
                if idx < self.windows.len() {
                    let win = self.windows[idx];
                    let h = sub_clamped(out_h, self.panel_height);
                    let updated = WindowElement {
                        x: out_w / 2,
                        y: self.panel_height,
                        w: out_w / 2,
                        h,
                        fullscreen: false,
                        saved_geometry: None,
                        ..win
                    };
                    self.windows.set(idx, updated);
                }
            },
            None => {},
        }
    }

    /// Advance focus to the next window in stack order and promote it to
    /// the top; no-op with at most one window.
    pub fn cycle_focus(&mut self)
        ensures
            final(self)@ == cycle_spec(old(self)@),
    {
        if self.windows.len() <= 1 {
            return ;
        }
        let len = self.windows.len();
        let next: usize = match self.focused {
            Some(i) => (i % len + 1) % len,
            None => 0,
        };
        proof {
            match old(self)@.focused {
                Some(i) => {
                    vstd::arithmetic::div_mod::lemma_add_mod_noop(i as int, 1, len as int);
                    vstd::arithmetic::div_mod::lemma_mod_division_less_than_divisor(
                        (i + 1) as int,
                        len as int,
                    );
                    assert(1int % (len as int) == 1) by {
                        vstd::arithmetic::div_mod::lemma_small_mod(1nat, len as nat);
                    }
                    assert(next as int == ((i + 1) as int) % (len as int));
                },
                None => {},
            }
        }
        let window = self.windows.remove(next);
        self.windows.push(window);
        self.focused = Some(self.windows.len() - 1);
    }

    /// Focus and raise the topmost window under the point; no-op when
    /// the point hits no window.
    pub fn focus_at(&mut self, px: i32, py: i32)
        ensures
            final(self)@ == focus_at_spec(old(self)@, px as int, py as int),
    {
        let hit = self.topmost_hit(px, py);
        match hit {
            Some(idx) => {
                let window = self.windows.remove(idx);
                self.windows.push(window);
                self.focused = Some(self.windows.len() - 1);
            },
            None => {},
        }
    }

    /// The topmost window under the point, with the point translated to
    /// window-local coordinates (clamped into the `i32` range).
    pub fn surface_under(&self, px: i32, py: i32) -> (r: Option<(u64, (i32, i32))>)
        ensures
            match topmost_hit_spec(self@.windows, px as int, py as int) {
                Some(idx) => {
                    let w = self@.windows[idx];
                    r == Some(
                        (
                            w.id,
                            (
                                clamp_to_i32(px - w.x) as i32,
                                clamp_to_i32(py - w.y) as i32,
                            ),
                        ),
                    )
                },
                None => r is None,
            },
    {
        match self.topmost_hit(px, py) {
            Some(idx) => {
                let w = self.windows[idx];
                let lx = sub_clamped(px, w.x);
                let ly = sub_clamped(py, w.y);
                proof {
                    assert(lx == clamp_to_i32(px - w.x) as i32);
                    assert(ly == clamp_to_i32(py - w.y) as i32);
                }
                Some((w.id, (lx, ly)))
            },
            None => None,
        }
    }

    /// Current cursor position.
    pub fn cursor_position(&self) -> (r: (i32, i32))
        ensures
            r == (self@.cursor_x, self@.cursor_y),
    {
        (self.cursor_x, self.cursor_y)
    }

    /// Set the cursor to an absolute position.
    pub fn set_cursor_position(&mut self, x: i32, y: i32)
        ensures
            final(self)@ == (WmModel { cursor_x: x, cursor_y: y, ..old(self)@ }),
    {
        self.cursor_x = x;
        self.cursor_y = y;
    }

    /// Move the cursor by a delta, clamped to the output bounds, and
    /// return the new position.
    pub fn update_cursor_relative(&mut self, dx: i32, dy: i32, out_w: i32, out_h: i32) -> (r: (
        i32,
        i32,
    ))
        requires
            out_w >= 0,
            out_h >= 0,
        ensures
            final(self)@ == (WmModel {
                cursor_x: clamp_spec(old(self)@.cursor_x + dx, 0, out_w as int) as i32,
                cursor_y: clamp_spec(old(self)@.cursor_y + dy, 0, out_h as int) as i32,
                ..old(self)@
            }),
            r == (final(self)@.cursor_x, final(self)@.cursor_y),
    {
        let nx: i64 = self.cursor_x as i64 + dx as i64;
        let ny: i64 = self.cursor_y as i64 + dy as i64;
        self.cursor_x = if nx < 0 {
            0
        } else if nx > out_w as i64 {
            out_w
        } else {
            nx as i32
        };
        self.cursor_y = if ny < 0 {
            0
        } else if ny > out_h as i64 {
            out_h
        } else {
            ny as i32
        };
        (self.cursor_x, self.cursor_y)
    }

    /// Apply pointer motion to the active grab.  Returns `true` (event
    /// consumed) when a grab is active, `false` otherwise.  A resize
    /// never shrinks the window below the minimum size.
    pub fn handle_pointer_motion(&mut self, px: i32, py: i32) -> (consumed: bool)
        ensures
            consumed == (old(self)@.grab is Some),
            final(self)@ == grab_motion_spec(old(self)@, px as int, py as int),
            (match old(self)@.grab {
                Some(g) => g.kind == GrabKind::Resize && g.window_index < old(self)@.windows.len(),
                None => false,
            }) ==> {
                let w = final(self)@.windows[old(self)@.grab->Some_0.window_index as int];
                w.w >= MIN_RESIZE_W && w.h >= MIN_RESIZE_H
            },
    {
        let grab = match &self.grab {
            Some(g) => *g,
            None => { return false; },
        };
        if grab.window_index < self.windows.len() {
            let win = self.windows[grab.window_index];
            let updated = match grab.kind {
                GrabKind::Move => {
                    let dx = px as i64 - grab.cursor_x as i64;
                    let dy = py as i64 - grab.cursor_y as i64;
                    let nx: i64 = grab.win_x as i64 + dx;
                    let ny_raw: i64 = grab.win_y as i64 + dy;
                    let ny: i64 = if ny_raw < self.panel_height as i64 {
                        self.panel_height as i64
                    } else {
                        ny_raw
                    };
                    WindowElement { x: saturate_i64(nx), y: saturate_i64(ny), ..win }
                },
                GrabKind::Resize => {
                    let dx = px as i64 - grab.cursor_x as i64;
                    let dy = py as i64 - grab.cursor_y as i64;
                    let nw_raw: i64 = grab.win_w as i64 + dx;
                    let nh_raw: i64 = grab.win_h as i64 + dy;
                    let nw: i64 = if nw_raw < MIN_RESIZE_W as i64 {
                        MIN_RESIZE_W as i64
                    } else {
                        nw_raw
                    };
                    let nh: i64 = if nh_raw < MIN_RESIZE_H as i64 {
                        MIN_RESIZE_H as i64
                    } else {
                        nh_raw
                    };
                    WindowElement { w: saturate_i64(nw), h: saturate_i64(nh), ..win }
                },
            };
            self.windows.set(grab.window_index, updated);
        }
        true
    }

    /// Start a move grab on the focused window, capturing the cursor and
    /// window geometry; replaces any existing grab.
    pub fn begin_move(&mut self)
        ensures
            final(self)@ == begin_grab_spec(old(self)@, GrabKind::Move),
    {
        self.begin_grab(GrabKind::Move);
    }

    /// Start a resize grab on the focused window, capturing the cursor
    /// and window geometry; replaces any existing grab.
    pub fn begin_resize(&mut self)
        ensures
            final(self)@ == begin_grab_spec(old(self)@, GrabKind::Resize),
    {
        self.begin_grab(GrabKind::Resize);
    }

    fn begin_grab(&mut self, kind: GrabKind)
        ensures
            final(self)@ == begin_grab_spec(old(self)@, kind),
    {
        match self.focused {
            Some(idx) => {
                if idx < self.windows.len() {
                    let w = self.windows[idx];
                    self.grab = Some(GrabState {
                        window_index: idx,
                        kind,
                        cursor_x: self.cursor_x,
                        cursor_y: self.cursor_y,
                        win_x: w.x,
                        win_y: w.y,
                        win_w: w.w,
                        win_h: w.h,
                    });
                }
            },
            None => {},
        }
    }

    /// Clear the active grab, if any.
    pub fn end_grab(&mut self)
        ensures
            final(self)@ == (WmModel { grab: None, ..old(self)@ }),
    {
        self.grab = None;
    }
}

// ---------------------------------------------------------------------
// Laws
// ---------------------------------------------------------------------

/// Adding a window keeps the manager well-formed: the focus index stays
/// `None` exactly when the stack is empty, and in range otherwise.
pub proof fn lemma_add_preserves_wf(m: WmModel, win: WindowElement, out_w: int, out_h: int)
    requires
        m.wf(),
        win.inv(),
    ensures
        add_spec(m, win, out_w, out_h).wf(),
{
    let r = add_spec(m, win, out_w, out_h);
    assert(forall|k: int| 0 <= k < m.windows.len() ==> r.windows[k] == m.windows[k]);
    let placed = r.windows[m.windows.len() as int];
    assert(placed.saved_geometry == win.saved_geometry && placed.fullscreen == win.fullscreen);
}

/// Removing a window keeps the manager well-formed, whatever identity
/// is asked for.
pub proof fn lemma_remove_preserves_wf(m: WmModel, id: u64)
    requires
        m.wf(),
    ensures
        remove_spec(m, id).wf(),
{
    lemma_find_window_char(m.windows, id);
    match find_window_spec(m.windows, id) {
        None => {},
        Some(idx) => {
            m.windows.remove_ensures(idx);
            let r = remove_spec(m, id);
            assert(forall|k: int| 0 <= k < r.windows.len() ==> #[trigger] r.windows[k].inv());
        },
    }
}

/// Promoting an in-range window keeps the manager well-formed.
pub proof fn lemma_promote_preserves_wf(m: WmModel, idx: int)
    requires
        m.wf(),
        0 <= idx < m.windows.len(),
    ensures
        promote_spec(m, idx).wf(),
{
    m.windows.remove_ensures(idx);
    let r = promote_spec(m, idx);
    assert(forall|k: int| 0 <= k < r.windows.len() - 1 ==> r.windows[k] == m.windows.remove(idx)[k]);
    assert(r.windows.last() == m.windows[idx]);
    assert(forall|k: int| 0 <= k < r.windows.len() ==> #[trigger] r.windows[k].inv());
}

/// `focus_at` keeps the manager well-formed.
pub proof fn lemma_focus_at_preserves_wf(m: WmModel, px: int, py: int)
    requires
        m.wf(),
    ensures
        focus_at_spec(m, px, py).wf(),
{
    lemma_topmost_hit_char(m.windows, px, py);
    match topmost_hit_spec(m.windows, px, py) {
        Some(idx) => lemma_promote_preserves_wf(m, idx),
        None => {},
    }
}

/// `cycle_focus` keeps the manager well-formed.
pub proof fn lemma_cycle_preserves_wf(m: WmModel)
    requires
        m.wf(),
    ensures
        cycle_spec(m).wf(),
{
    if m.windows.len() <= 1 {
    } else {
        let len = m.windows.len() as int;
        match m.focused {
            Some(i) => {
                vstd::arithmetic::div_mod::lemma_mod_division_less_than_divisor((i + 1) as int, len);
                vstd::arithmetic::div_mod::lemma_mod_bound((i + 1) as int, len);
                lemma_promote_preserves_wf(m, ((i + 1) as int) % len);
            },
            None => {
                lemma_promote_preserves_wf(m, 0);
            },
        }
    }
}

/// Toggling fullscreen keeps the manager well-formed: entering stores a
/// saved geometry together with the flag, leaving clears both.
pub proof fn lemma_toggle_preserves_wf(m: WmModel, out_w: i32, out_h: i32)
    requires
        m.wf(),
    ensures
        toggle_spec(m, out_w, out_h).wf(),
{
    match m.focused {
        Some(i) => {
            if i < m.windows.len() {
                let r = toggle_spec(m, out_w, out_h);
                assert(forall|k: int| 0 <= k < r.windows.len() ==> #[trigger] r.windows[k].inv());
            }
        },
        None => {},
    }
}

/// Tiling keeps the manager well-formed: the tiled window leaves
/// fullscreen and drops its saved geometry.
pub proof fn lemma_tile_preserves_wf(m: WmModel, out_w: int, out_h: int)
    requires
        m.wf(),
    ensures
        tile_left_spec(m, out_w, out_h).wf(),
        tile_right_spec(m, out_w, out_h).wf(),
{
    match m.focused {
        Some(i) => {
            if i < m.windows.len() {
                let l = tile_left_spec(m, out_w, out_h);
                let r = tile_right_spec(m, out_w, out_h);
                assert(forall|k: int| 0 <= k < l.windows.len() ==> #[trigger] l.windows[k].inv());
                assert(forall|k: int| 0 <= k < r.windows.len() ==> #[trigger] r.windows[k].inv());
            }
        },
        None => {},
    }
}

/// Grab motion keeps the manager well-formed: it only moves or resizes
/// one window.
pub proof fn lemma_grab_motion_preserves_wf(m: WmModel, px: int, py: int)
    requires
        m.wf(),
    ensures
        grab_motion_spec(m, px, py).wf(),
{
    match m.grab {
        Some(g) => {
            if g.window_index < m.windows.len() {
                let r = grab_motion_spec(m, px, py);
                assert forall|k: int| 0 <= k < r.windows.len() implies #[trigger] r.windows[k].inv() by {
                    if k == g.window_index {
                        assert(m.windows[k].inv());
                        assert(r.windows[k] == grab_motion_window_spec(
                            g,
                            m.windows[k],
                            m.panel_height,
                            px,
                            py,
                        ));
                    } else {
                        assert(r.windows[k] == m.windows[k]);
                    }
                }
            }
        },
        None => {},
    }
}

/// Toggling fullscreen twice on the focused, not-fullscreen window with
/// no operation in between restores the manager exactly: the second
/// toggle puts back the geometry the first one saved.
pub proof fn lemma_toggle_fullscreen_round_trip(m: WmModel, out_w: i32, out_h: i32)
    requires
        m.wf(),
        m.focused matches Some(i) && !m.windows[i as int].fullscreen,
    ensures
        toggle_spec(toggle_spec(m, out_w, out_h), out_w, out_h) == m,
{
    let i = m.focused->Some_0 as int;
    let win = m.windows[i];
    let t1 = toggle_spec(m, out_w, out_h);
    let t2 = toggle_spec(t1, out_w, out_h);
    assert(win.inv());
    assert(win.saved_geometry is None);
    assert(t1.windows[i] == toggle_window_spec(win, out_w, out_h));
    assert(t2.windows[i] == win);
    assert(t2.windows =~= m.windows);
}

/// Restoring from fullscreen with nothing saved is a no-op on geometry:
/// only the flag is cleared, nothing is corrupted.
pub proof fn lemma_toggle_no_saved_geometry(m: WmModel, out_w: i32, out_h: i32)
    requires
        m.focused matches Some(i) && i < m.windows.len() && m.windows[i as int].fullscreen
            && m.windows[i as int].saved_geometry is None,
    ensures
        toggle_spec(m, out_w, out_h).windows[m.focused->Some_0 as int].geometry_spec()
            == m.windows[m.focused->Some_0 as int].geometry_spec(),
        toggle_spec(m, out_w, out_h).windows[m.focused->Some_0 as int].fullscreen == false,
{
}

/// A hit promotes exactly the hit window: when the point lies inside
/// window `j`'s bounds and inside no window above it, `focus_at` makes
/// window `j` the last in stack order and focuses it.
pub proof fn lemma_focus_at_hits(m: WmModel, px: int, py: int, j: int)
    requires
        0 <= j < m.windows.len(),
        rect_contains_spec(m.windows[j].geometry_spec(), px, py),
        forall|k: int| j < k < m.windows.len() ==> !rect_contains_spec(
            (#[trigger] m.windows[k]).geometry_spec(),
            px,
            py,
        ),
    ensures
        focus_at_spec(m, px, py) == promote_spec(m, j),
        focus_at_spec(m, px, py).windows.last() == m.windows[j],
        focus_at_spec(m, px, py).focused == Some((m.windows.len() - 1) as usize),
{
    lemma_topmost_hit_char(m.windows, px, py);
    assert(topmost_hit_spec(m.windows, px, py) == Some(j));
}

/// The stack after `k` cycles, starting from a well-formed manager with
/// more than one window: one promotion followed by `k - 1` left
/// rotations of the stack.
pub open spec fn cycle_iter_spec(m: WmModel, k: nat) -> WmModel
    decreases k,
{
    if k == 0 {
        m
    } else {
        cycle_spec(cycle_iter_spec(m, (k - 1) as nat))
    }
}

/// Left rotation by one: the bottom window moves to the top.
pub open spec fn rotate1_spec(s: Seq<WindowElement>) -> Seq<WindowElement> {
    s.drop_first().push(s[0])
}

proof fn lemma_promote_is_rotate1(m: WmModel)
    requires
        m.windows.len() > 1,
    ensures
        promote_spec(m, 0).windows =~= rotate1_spec(m.windows),
{
    m.windows.remove_ensures(0);
    assert(m.windows.remove(0) =~= m.windows.drop_first());
}

/// After the first of a run of cycles, every further cycle rotates the
/// stack left by one and keeps the focus on the top.
proof fn lemma_cycle_iter_shape(m: WmModel, k: nat)
    requires
        m.wf(),
        1 < m.windows.len() <= usize::MAX,
        k >= 1,
    ensures
        cycle_iter_spec(m, k).windows.len() == m.windows.len(),
        cycle_iter_spec(m, k).focused == Some((m.windows.len() - 1) as usize),
        cycle_iter_spec(m, k).windows =~= {
            let first = cycle_iter_spec(m, 1).windows;
            first.skip(k as int - 1) + first.take(k as int - 1)
        } || k > m.windows.len(),
    decreases k,
{
    let len = m.windows.len() as int;
    assert(cycle_iter_spec(m, 0) == m);
    if k == 1 {
        assert(cycle_iter_spec(m, 1) == cycle_spec(m));
        match m.focused {
            Some(i) => {
                vstd::arithmetic::div_mod::lemma_mod_bound((i + 1) as int, len);
            },
            None => {},
        }
        let first = cycle_iter_spec(m, 1).windows;
        assert(first.skip(0) + first.take(0) =~= first);
    } else {
        lemma_cycle_iter_shape(m, (k - 1) as nat);
        let prev = cycle_iter_spec(m, (k - 1) as nat);
        let cur = cycle_iter_spec(m, k);
        assert(cur == cycle_spec(prev));
        let pi = (len - 1) as usize;
        assert(prev.focused == Some(pi));
        vstd::arithmetic::div_mod::lemma_mod_self_0(len);
        assert(((pi + 1) as int) % len == 0) by {
            assert((pi + 1) as int == len);
        }
        assert(cur == promote_spec(prev, 0));
        lemma_promote_is_rotate1(prev);
        if k <= len {
            lemma_cycle_iter_shape(m, 1);
            let first = cycle_iter_spec(m, 1).windows;
            let a = k - 2;
            assert(prev.windows =~= first.skip(a) + first.take(a));
            assert(first.len() == len);
            assert(prev.windows[0] == first[a]);
            assert(cur.windows =~= rotate1_spec(prev.windows));
            assert(cur.windows =~= first.skip(a + 1) + first.take(a + 1)) by {
                assert(rotate1_spec(first.skip(a) + first.take(a)) =~= first.skip(a + 1)
                    + first.take(a + 1));
            }
        }
    }
}

/// Some one of the first `windows.len()` cycles leaves `w` topmost.
pub open spec fn cycle_visits(m: WmModel, w: WindowElement) -> bool {
    exists|k: nat|
        1 <= k <= m.windows.len() && (#[trigger] cycle_iter_spec(m, k)).windows.last() == w
}

/// With `N > 1` windows, `N` successive `cycle_focus` calls visit every
/// window: each window of the original stack is, after one of the
/// calls, the topmost (and focused) window.
pub proof fn lemma_cycle_visits_all(m: WmModel)
    requires
        m.wf(),
        1 < m.windows.len() <= usize::MAX,
    ensures
        forall|i: int| 0 <= i < m.windows.len() ==> cycle_visits(m, #[trigger] m.windows[i]),
        forall|k: nat| 1 <= k <= m.windows.len() ==> #[trigger] cycle_iter_spec(m, k).focused
            == Some((m.windows.len() - 1) as usize),
{
    let len = m.windows.len() as int;
    let f = m.focused->Some_0 as int;
    let j0 = (f + 1) % len;
    vstd::arithmetic::div_mod::lemma_mod_bound((f + 1) as int, len);
    assert(cycle_iter_spec(m, 0) == m);
    let m1 = cycle_iter_spec(m, 1);
    assert(m1 == cycle_spec(m));
    assert(m1 == promote_spec(m, j0));
    m.windows.remove_ensures(j0);
    assert forall|k: nat| 1 <= k <= m.windows.len() implies #[trigger] cycle_iter_spec(
        m,
        k,
    ).focused == Some((m.windows.len() - 1) as usize) by {
        lemma_cycle_iter_shape(m, k);
    }
    assert forall|i: int| 0 <= i < m.windows.len() implies cycle_visits(
        m,
        #[trigger] m.windows[i],
    ) by {
        if i == j0 {
            assert(m1.windows.last() == m.windows[j0]);
            assert(cycle_iter_spec(m, 1nat).windows.last() == m.windows[i]);
        } else {
            // Position of window i inside the promoted stack m1.
            let p: int = if i < j0 {
                i
            } else {
                i - 1
            };
            assert(m1.windows[p] == m.windows[i]);
            // The k-th call tops m1.windows[k - 2]; pick k with k - 2 == p.
            let k = (p + 2) as nat;
            lemma_cycle_iter_shape(m, k);
            let first = m1.windows;
            assert(cycle_iter_spec(m, k).windows =~= first.skip(p + 1) + first.take(p + 1));
            assert(cycle_iter_spec(m, k).windows.last() == first[p]);
        }
    }
}

/// Saturating conversion from `i64` to `i32`.
fn saturate_i64(v: i64) -> (r: i32)
    ensures
        r as int == clamp_to_i32(v as int),
{
    if v > i32::MAX as i64 {
        i32::MAX
    } else if v < i32::MIN as i64 {
        i32::MIN
    } else {
        v as i32
    }
}

} // verus!
