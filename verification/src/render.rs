//! Renderer: a pure pass over a state snapshot producing the ordered
//! list of fill-rectangle commands for one frame.
//!
//! Order is fixed: background, then window borders bottom-up (the
//! topmost window gets the focused border color), the panel bar with
//! its accent line, the launcher overlay when visible, and the cursor
//! marker last.  Nothing is retained between frames.  The driver maps
//! each [`Color`] to its theme value and submits the rectangles.

use vstd::prelude::*;

use crate::geometry::clamp_to_i32;
use crate::launcher::div_trunc;
use crate::state::{DesktopModel, DesktopState};
use crate::window::WindowElement;

verus! {

/// Height of the floating panel bar.
pub const PANEL_BAR_HEIGHT: i32 = 44;

/// Margin around the floating panel bar.
pub const PANEL_MARGIN: i32 = 10;

/// Thickness of window borders.
pub const BORDER_WIDTH: i32 = 3;

/// The theme colors a frame uses; the driver maps each to its channel
/// values.
#[derive(Clone, Copy, Debug, PartialEq, Eq, Structural)]
pub enum Color {
    /// Background clear color.
    BgDark,
    /// Panel bar background.
    PanelBg,
    /// Crimson accent: focused borders, the panel accent line, the
    /// selected item and its icon.
    AccentCrimson,
    /// Cyan accent: plain icons and the cursor marker.
    AccentCyan,
    /// Launcher box background.
    LauncherBg,
    /// Border of the topmost (focused) window.
    BorderFocused,
    /// Border of every other window.
    BorderUnfocused,
    /// Full-screen dim behind the launcher.
    DimOverlay,
    /// Search-bar strip.
    SearchBarBg,
    /// Background of an unselected grid item.
    ItemPlainBg,
    /// Background of the selected grid item.
    ItemSelectedBg,
}

/// One fill-rectangle command.
#[derive(Clone, Copy, Debug, PartialEq, Eq, Structural)]
pub struct DrawCmd {
    pub color: Color,
    pub x: i32,
    pub y: i32,
    pub w: i32,
    pub h: i32,
}

/// A command with every coordinate clamped into the `i32` range.
pub open spec fn cmd_spec(color: Color, x: int, y: int, w: int, h: int) -> DrawCmd {
    DrawCmd {
        color,
        x: clamp_to_i32(x) as i32,
        y: clamp_to_i32(y) as i32,
        w: clamp_to_i32(w) as i32,
        h: clamp_to_i32(h) as i32,
    }
}

/// The four border rectangles of one window: top, bottom, left, right.
pub open spec fn border_cmds_spec(win: WindowElement, focused: bool) -> Seq<DrawCmd> {
    let c = if focused {
        Color::BorderFocused
    } else {
        Color::BorderUnfocused
    };
    let b = BORDER_WIDTH as int;
    seq![
        cmd_spec(c, win.x - b, win.y - b, win.w + 2 * b, b),
        cmd_spec(c, win.x - b, win.y + win.h, win.w + 2 * b, b),
        cmd_spec(c, win.x - b, win.y as int, b, win.h as int),
        cmd_spec(c, win.x + win.w, win.y as int, b, win.h as int),
    ]
}

/// Borders of the first `n` windows, bottom of the stack first; the
/// topmost window of the whole stack is the focused one.
pub open spec fn windows_cmds_spec(ws: Seq<WindowElement>, n: int) -> Seq<DrawCmd>
    decreases n,
{
    if n <= 0 {
        Seq::empty()
    } else {
        windows_cmds_spec(ws, n - 1) + border_cmds_spec(ws[n - 1], n == ws.len())
    }
}

/// The panel bar and its accent line.
pub open spec fn panel_cmds_spec(out_w: int) -> Seq<DrawCmd> {
    seq![
        cmd_spec(Color::PanelBg, 10, 10, out_w - 20, PANEL_BAR_HEIGHT as int),
        cmd_spec(Color::AccentCrimson, 30, 52, 60, 2),
    ]
}

/// The launcher box geometry the renderer uses: width and height never
/// negative, centered.
pub open spec fn render_box_spec(out_w: int, out_h: int) -> (int, int, int, int) {
    let lw0 = if 800 <= out_w - 100 {
        800int
    } else {
        out_w - 100
    };
    let lw = if lw0 < 0 {
        0int
    } else {
        lw0
    };
    let lh0 = if 600 <= out_h - 200 {
        600int
    } else {
        out_h - 200
    };
    let lh = if lh0 < 0 {
        0int
    } else {
        lh0
    };
    ((out_w - lw) / 2, (out_h - lh) / 2, lw, lh)
}

/// `col * item_w` for a column in `0..4`.
pub open spec fn col_offset_spec(col: int, item_w: int) -> int {
    if col == 0 {
        0int
    } else if col == 1 {
        item_w
    } else if col == 2 {
        2 * item_w
    } else {
        3 * item_w
    }
}

/// The two rectangles of grid item `i`: its cell background and its
/// icon placeholder, highlighted when the item is selected.
pub open spec fn item_cmds_spec(
    i: int,
    selected: bool,
    lx: int,
    ly: int,
    item_w: int,
) -> Seq<DrawCmd> {
    let col = i % 4;
    let row = i / 4;
    let ix = lx + 30 + col_offset_spec(col, item_w);
    let iy = ly + 90 + row * 100;
    let bg = if selected {
        Color::ItemSelectedBg
    } else {
        Color::ItemPlainBg
    };
    let icon = if selected {
        Color::AccentCrimson
    } else {
        Color::AccentCyan
    };
    seq![
        cmd_spec(bg, ix + 5, iy + 5, item_w - 10, 90),
        cmd_spec(icon, ix + div_trunc(item_w, 2) - 15, iy + 20, 30, 30),
    ]
}

/// The first `n` grid items.
pub open spec fn items_cmds_spec(
    n: int,
    sel: int,
    lx: int,
    ly: int,
    item_w: int,
) -> Seq<DrawCmd>
    decreases n,
{
    if n <= 0 {
        Seq::empty()
    } else {
        items_cmds_spec(n - 1, sel, lx, ly, item_w) + item_cmds_spec(
            n - 1,
            sel == n - 1,
            lx,
            ly,
            item_w,
        )
    }
}

/// The launcher overlay: dim backdrop, box, search bar, and up to
/// twelve grid items; empty when the launcher is hidden.
pub open spec fn launcher_cmds_spec(d: DesktopModel) -> Seq<DrawCmd> {
    if !d.launcher.visible {
        Seq::empty()
    } else {
        let (lx, ly, lw, lh) = render_box_spec(d.output_w as int, d.output_h as int);
        let item_w = div_trunc(lw - 60, 4);
        let count = if d.launcher.filtered.len() <= 12 {
            d.launcher.filtered.len() as int
        } else {
            12int
        };
        seq![
            cmd_spec(Color::DimOverlay, 0, 0, d.output_w as int, d.output_h as int),
            cmd_spec(Color::LauncherBg, lx, ly, lw, lh),
            cmd_spec(Color::SearchBarBg, lx + 20, ly + 20, lw - 40, 50),
        ] + items_cmds_spec(count, d.launcher.selected as int, lx, ly, item_w)
    }
}

/// Every command of one frame, in submission order.
pub open spec fn frame_commands_spec(d: DesktopModel) -> Seq<DrawCmd> {
    seq![cmd_spec(Color::BgDark, 0, 0, d.output_w as int, d.output_h as int)]
        + windows_cmds_spec(d.wm.windows, d.wm.windows.len() as int) + panel_cmds_spec(
        d.output_w as int,
    ) + launcher_cmds_spec(d) + seq![
        cmd_spec(
            Color::AccentCyan,
            d.wm.cursor_x - 4,
            d.wm.cursor_y - 4,
            8,
            8,
        ),
    ]
}

/// Build a command from wide intermediate values, saturating into the
/// `i32` range.
fn mk_cmd(color: Color, x: i64, y: i64, w: i64, h: i64) -> (r: DrawCmd)
    ensures
        r == cmd_spec(color, x as int, y as int, w as int, h as int),
{
    DrawCmd { color, x: sat(x), y: sat(y), w: sat(w), h: sat(h) }
}

/// Saturating conversion from `i64` to `i32`.
fn sat(v: i64) -> (r: i32)
    ensures
        r as int == clamp_to_i32(v as int),
{
    if v > i32::MAX as i64 {
        i32::MAX
    } else if v < i32::MIN as i64 {
        i32::MIN
    } else {
        v as i32
    }
}

pub struct Renderer;

impl Renderer {
    /// Compute the full frame for the current state.
    pub fn render_frame(state: &DesktopState) -> (r: Vec<DrawCmd>)
        requires
            state@.wf(),
        ensures
            r@ == frame_commands_spec(state@),
    {
        let d = state;
        let out_w: i64 = d.output_w as i64;
        let out_h: i64 = d.output_h as i64;
        let mut out: Vec<DrawCmd> = Vec::new();

        // 1. Background.
        out.push(mk_cmd(Color::BgDark, 0, 0, out_w, out_h));
        let ghost seg_bg = out@;
        proof {
            assert(seg_bg =~= seq![
                cmd_spec(Color::BgDark, 0, 0, state@.output_w as int, state@.output_h as int),
            ]);
        }

        // 2. Window borders, bottom of the stack first.
        let ws = d.window_manager.windows();
        let n = ws.len();
        let mut i: usize = 0;
        proof {
            assert(out@ =~= seg_bg + windows_cmds_spec(state@.wm.windows, 0));
        }
        while i < n
            invariant
                i <= n,
                n == ws@.len(),
                ws@ == state@.wm.windows,
                out@ == seg_bg + windows_cmds_spec(state@.wm.windows, i as int),
            decreases n - i,
        {
            let win = ws[i];
            let focused = i + 1 == n;
            let c = if focused {
                Color::BorderFocused
            } else {
                Color::BorderUnfocused
            };
            let b: i64 = BORDER_WIDTH as i64;
            let wx: i64 = win.x as i64;
            let wy: i64 = win.y as i64;
            let ww: i64 = win.w as i64;
            let wh: i64 = win.h as i64;
            out.push(mk_cmd(c, wx - b, wy - b, ww + 2 * b, b));
            out.push(mk_cmd(c, wx - b, wy + wh, ww + 2 * b, b));
            out.push(mk_cmd(c, wx - b, wy, b, wh));
            out.push(mk_cmd(c, wx + ww, wy, b, wh));
            proof {
                assert(out@ =~= (seg_bg + windows_cmds_spec(state@.wm.windows, i as int))
                    + border_cmds_spec(state@.wm.windows[i as int], i + 1 == n));
                assert(out@ =~= seg_bg + windows_cmds_spec(state@.wm.windows, i as int + 1));
            }
            i += 1;
        }
        let ghost seg_windows = out@;

        // 3. The floating panel bar and its accent line.
        out.push(mk_cmd(Color::PanelBg, 10, 10, out_w - 20, PANEL_BAR_HEIGHT as i64));
        out.push(mk_cmd(Color::AccentCrimson, 30, 52, 60, 2));
        let ghost seg_panel = out@;
        proof {
            assert(seg_panel =~= seg_windows + panel_cmds_spec(state@.output_w as int));
        }

        // 4. The launcher overlay.
        if d.launcher.is_visible() {
            let lw0: i64 = if 800 <= out_w - 100 {
                800
            } else {
                out_w - 100
            };
            let lw: i64 = if lw0 < 0 {
                0
            } else {
                lw0
            };
            let lh0: i64 = if 600 <= out_h - 200 {
                600
            } else {
                out_h - 200
            };
            let lh: i64 = if lh0 < 0 {
                0
            } else {
                lh0
            };
            let lx: i64 = (out_w - lw) / 2;
            let ly: i64 = (out_h - lh) / 2;
            let dw: i64 = lw - 60;
            let item_w: i64 = if dw >= 0 {
                dw / 4
            } else {
                -((-dw) / 4)
            };
            out.push(mk_cmd(Color::DimOverlay, 0, 0, out_w, out_h));
            out.push(mk_cmd(Color::LauncherBg, lx, ly, lw, lh));
            out.push(mk_cmd(Color::SearchBarBg, lx + 20, ly + 20, lw - 40, 50));
            let flen = d.launcher.filtered.len();
            let count: usize = if flen <= 12 {
                flen
            } else {
                12
            };
            let ghost seg_box = out@;
            let sel = d.launcher.selected;
            proof {
                assert(out@ =~= seg_box + items_cmds_spec(
                    0,
                    sel as int,
                    lx as int,
                    ly as int,
                    item_w as int,
                ));
            }
            let mut k: usize = 0;
            while k < count
                invariant
                    k <= count <= 12,
                    out@ == seg_box + items_cmds_spec(
                        k as int,
                        sel as int,
                        lx as int,
                        ly as int,
                        item_w as int,
                    ),
                    -(0x8000_0000i64) <= lx <= 0x8000_0000,
                    -(0x8000_0000i64) <= ly <= 0x8000_0000,
                    -(0x8000_0000i64) <= item_w <= 0x8000_0000,
                decreases count - k,
            {
                let col = k % 4;
                let row = k / 4;
                let col_off: i64 = if col == 0 {
                    0
                } else if col == 1 {
                    item_w
                } else if col == 2 {
                    2 * item_w
                } else {
                    3 * item_w
                };
                let ix: i64 = lx + 30 + col_off;
                let iy: i64 = ly + 90 + (row as i64) * 100;
                let selected = sel == k;
                let bg = if selected {
                    Color::ItemSelectedBg
                } else {
                    Color::ItemPlainBg
                };
                let icon = if selected {
                    Color::AccentCrimson
                } else {
                    Color::AccentCyan
                };
                let half: i64 = if item_w >= 0 {
                    item_w / 2
                } else {
                    -((-item_w) / 2)
                };
                out.push(mk_cmd(bg, ix + 5, iy + 5, item_w - 10, 90));
                out.push(mk_cmd(icon, ix + half - 15, iy + 20, 30, 30));
                proof {
                    assert(col_off as int == col_offset_spec(k as int % 4, item_w as int));
                    assert(half as int == div_trunc(item_w as int, 2));
                    assert(out@ =~= (seg_box + items_cmds_spec(
                        k as int,
                        sel as int,
                        lx as int,
                        ly as int,
                        item_w as int,
                    )) + item_cmds_spec(k as int, sel == k, lx as int, ly as int, item_w as int));
                    assert(out@ =~= seg_box + items_cmds_spec(
                        k as int + 1,
                        sel as int,
                        lx as int,
                        ly as int,
                        item_w as int,
                    ));
                }
                k += 1;
            }
            proof {
                assert(launcher_cmds_spec(state@) =~= (seq![
                    cmd_spec(
                        Color::DimOverlay,
                        0,
                        0,
                        state@.output_w as int,
                        state@.output_h as int,
                    ),
                    cmd_spec(Color::LauncherBg, lx as int, ly as int, lw as int, lh as int),
                    cmd_spec(
                        Color::SearchBarBg,
                        lx as int + 20,
                        ly as int + 20,
                        lw as int - 40,
                        50,
                    ),
                ] + items_cmds_spec(
                    count as int,
                    sel as int,
                    lx as int,
                    ly as int,
                    item_w as int,
                )));
            }
        }
        let ghost seg_launcher = out@;
        proof {
            assert(seg_launcher =~= seg_panel + launcher_cmds_spec(state@));
        }

        // 5. Cursor marker.
        let cx: i64 = d.window_manager.cursor_x as i64;
        let cy: i64 = d.window_manager.cursor_y as i64;
        out.push(mk_cmd(Color::AccentCyan, cx - 4, cy - 4, 8, 8));
        proof {
            assert(out@ =~= frame_commands_spec(state@));
        }
        out
    }
}

} // verus!
