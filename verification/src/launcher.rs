//! Application launcher overlay: the entry index built from descriptor
//! files, the search query with its filtered view, the selection, and
//! the grid hit-test for clicks on the overlay.

use vstd::prelude::*;

use crate::desktop::{desktop_fields_spec, parse_desktop_entry, ParseAcc};
use crate::text::{contains_subseq, is_substring, lex_le, lex_le_exec, lower_spec, to_lower};

verus! {

/// One launchable application, parsed from a descriptor file.
#[derive(Clone, Debug)]
pub struct AppEntry {
    /// Display name.
    pub name: Vec<u8>,
    /// Generic name / subtitle.
    pub generic_name: Vec<u8>,
    /// Launch command, placeholder field codes removed.
    pub exec_cmd: Vec<u8>,
    /// Icon name, possibly empty.
    pub icon: Vec<u8>,
    /// Categories for filtering.
    pub categories: Vec<Vec<u8>>,
    /// Path of the source descriptor file.
    pub desktop_file: Vec<u8>,
}

/// Mathematical snapshot of an entry.
pub ghost struct AppEntryModel {
    pub name: Seq<u8>,
    pub generic_name: Seq<u8>,
    pub exec_cmd: Seq<u8>,
    pub icon: Seq<u8>,
    pub categories: Seq<Seq<u8>>,
    pub desktop_file: Seq<u8>,
}

impl View for AppEntry {
    type V = AppEntryModel;

    open spec fn view(&self) -> AppEntryModel {
        AppEntryModel {
            name: self.name@,
            generic_name: self.generic_name@,
            exec_cmd: self.exec_cmd@,
            icon: self.icon@,
            categories: self.categories.deep_view(),
            desktop_file: self.desktop_file@,
        }
    }
}

/// The snapshots of a sequence of entries.
pub open spec fn models_of(s: Seq<AppEntry>) -> Seq<AppEntryModel> {
    s.map_values(|e: AppEntry| e@)
}

/// The entry an accepted descriptor file yields.
pub open spec fn entry_of(st: ParseAcc, path: Seq<u8>) -> AppEntryModel {
    AppEntryModel {
        name: st.name,
        generic_name: st.generic_name,
        exec_cmd: st.exec_cmd,
        icon: st.icon,
        categories: st.categories,
        desktop_file: path,
    }
}

/// The entries parsed from `(path, content)` pairs, rejected files
/// skipped, in file order.
pub open spec fn parsed_entries(files: Seq<(Seq<u8>, Seq<u8>)>) -> Seq<AppEntryModel>
    decreases files.len(),
{
    if files.len() == 0 {
        Seq::empty()
    } else {
        let rest = parsed_entries(files.drop_last());
        match desktop_fields_spec(files.last().1) {
            Some(st) => rest.push(entry_of(st, files.last().0)),
            None => rest,
        }
    }
}

/// Sort key order: case-folded names, lexicographically.
pub open spec fn entry_le(a: AppEntryModel, b: AppEntryModel) -> bool {
    lex_le(lower_spec(a.name), lower_spec(b.name))
}

/// Sorted case-insensitively by name.
pub open spec fn entries_sorted(s: Seq<AppEntryModel>) -> bool {
    forall|i: int, j: int| 0 <= i < j < s.len() ==> entry_le(#[trigger] s[i], #[trigger] s[j])
}

/// An entry matches a (case-folded) query when the query occurs in its
/// folded name, folded generic name, or any folded category.
pub open spec fn entry_matches(e: AppEntryModel, q: Seq<u8>) -> bool {
    ||| is_substring(lower_spec(e.name), q)
    ||| is_substring(lower_spec(e.generic_name), q)
    ||| exists|c: int|
        0 <= c < e.categories.len() && is_substring(lower_spec(#[trigger] e.categories[c]), q)
}

/// Indices below `n` of entries matching the folded query, ascending.
pub open spec fn filter_up_to(apps: Seq<AppEntryModel>, q: Seq<u8>, n: int) -> Seq<usize>
    decreases n,
{
    if n <= 0 {
        Seq::empty()
    } else {
        let rest = filter_up_to(apps, q, n - 1);
        if entry_matches(apps[n - 1], q) {
            rest.push((n - 1) as usize)
        } else {
            rest
        }
    }
}

/// The filtered view for a raw query: the query is case-folded first;
/// an empty query matches every entry.
pub open spec fn filter_spec(apps: Seq<AppEntryModel>, q_raw: Seq<u8>) -> Seq<usize> {
    filter_up_to(apps, lower_spec(q_raw), apps.len() as int)
}

/// Mathematical snapshot of the launcher.
pub ghost struct LauncherModel {
    pub apps: Seq<AppEntryModel>,
    pub search_query: Seq<u8>,
    pub filtered: Seq<usize>,
    pub selected: usize,
    pub visible: bool,
}

impl LauncherModel {
    /// Well-formedness: filtered indices point into the entry list, and
    /// the selection is in range whenever anything is filtered.
    pub open spec fn wf(self) -> bool {
        &&& (forall|k: int| 0 <= k < self.filtered.len() ==> (#[trigger] self.filtered[k] as int)
            < self.apps.len())
        &&& (self.filtered.len() > 0 ==> (self.selected as int) < self.filtered.len())
    }
}

/// Recompute the filtered view for the current query and clamp the
/// selection into range.
pub open spec fn update_filter_spec(m: LauncherModel) -> LauncherModel {
    let f = filter_spec(m.apps, m.search_query);
    let sel: usize = if m.selected >= f.len() && f.len() > 0 {
        (f.len() - 1) as usize
    } else {
        m.selected
    };
    LauncherModel { filtered: f, selected: sel, ..m }
}

/// `toggle`: hide when visible; when opening, reset query and
/// selection and recompute the filter.
pub open spec fn toggle_spec(m: LauncherModel) -> LauncherModel {
    if m.visible {
        LauncherModel { visible: false, ..m }
    } else {
        update_filter_spec(
            LauncherModel { visible: true, search_query: Seq::empty(), selected: 0, ..m },
        )
    }
}

/// `type_char`: append a byte to the query, reset the selection,
/// recompute the filter.
pub open spec fn type_char_spec(m: LauncherModel, ch: u8) -> LauncherModel {
    update_filter_spec(
        LauncherModel { search_query: m.search_query.push(ch), selected: 0, ..m },
    )
}

/// `backspace`: drop the last query byte (if any), reset the
/// selection, recompute the filter.
pub open spec fn backspace_spec(m: LauncherModel) -> LauncherModel {
    let q = if m.search_query.len() > 0 {
        m.search_query.drop_last()
    } else {
        m.search_query
    };
    update_filter_spec(LauncherModel { search_query: q, selected: 0, ..m })
}

/// The application launcher overlay.
pub struct AppLauncher {
    /// All discovered applications, sorted case-insensitively by name.
    pub apps: Vec<AppEntry>,
    /// Current search query, UTF-8 bytes.
    pub search_query: Vec<u8>,
    /// Indices into `apps` matching the query, ascending.
    pub filtered: Vec<usize>,
    /// Selected position within `filtered`.
    pub selected: usize,
    /// Whether the overlay is shown.
    pub visible: bool,
}

impl View for AppLauncher {
    type V = LauncherModel;

    open spec fn view(&self) -> LauncherModel {
        LauncherModel {
            apps: models_of(self.apps@),
            search_query: self.search_query@,
            filtered: self.filtered@,
            selected: self.selected,
            visible: self.visible,
        }
    }
}

impl AppLauncher {
    /// Build the launcher from raw descriptor files, given as
    /// `(path, content)` pairs: parse each file, sort the accepted
    /// entries case-insensitively by name, show everything, hidden.
    pub fn new(files: &Vec<(Vec<u8>, Vec<u8>)>) -> (r: AppLauncher)
        ensures
            entries_sorted(r@.apps),
            r@.apps.to_multiset() == parsed_entries(files.deep_view()).to_multiset(),
            r@.search_query == Seq::<u8>::empty(),
            r@.filtered == filter_spec(r@.apps, Seq::<u8>::empty()),
            r@.selected == 0,
            r@.visible == false,
            r@.wf(),
    {
        let mut apps: Vec<AppEntry> = Vec::new();
        let mut i: usize = 0;
        proof {
            assert(files.deep_view().take(0) =~= Seq::<(Seq<u8>, Seq<u8>)>::empty());
            assert(models_of(apps@) =~= parsed_entries(files.deep_view().take(0)));
        }
        while i < files.len()
            invariant
                i <= files@.len(),
                files@.len() == files.deep_view().len(),
                models_of(apps@) == parsed_entries(files.deep_view().take(i as int)),
            decreases files@.len() - i,
        {
            proof {
                assert(files.deep_view().take(i as int + 1).drop_last() =~= files.deep_view().take(
                    i as int,
                ));
                assert(files.deep_view().take(i as int + 1).last() == files.deep_view()[i as int]);
                assert(files.deep_view()[i as int] == (files@[i as int].0@, files@[i as int].1@));
            }
            let (path, content) = &files[i];
            match parse_desktop_entry(content.as_slice()) {
                Some(fields) => {
                    let entry = AppEntry {
                        name: fields.name,
                        generic_name: fields.generic_name,
                        exec_cmd: fields.exec_cmd,
                        icon: fields.icon,
                        categories: fields.categories,
                        desktop_file: path.clone(),
                    };
                    apps.push(entry);
                    proof {
                        assert(models_of(apps@) =~= parsed_entries(
                            files.deep_view().take(i as int + 1),
                        ));
                    }
                },
                None => {
                    proof {
                        assert(models_of(apps@) =~= parsed_entries(
                            files.deep_view().take(i as int + 1),
                        ));
                    }
                },
            }
            i += 1;
        }
        proof {
            assert(files.deep_view().take(files.deep_view().len() as int) =~= files.deep_view());
        }
        let apps = sort_entries(apps);
        let mut launcher = AppLauncher {
            apps,
            search_query: Vec::new(),
            filtered: Vec::new(),
            selected: 0,
            visible: false,
        };
        launcher.update_filter();
        launcher
    }

    /// Recompute the filtered view from the current query and clamp
    /// the selection.
    pub fn update_filter(&mut self)
        ensures
            final(self)@ == update_filter_spec(old(self)@),
            final(self)@.wf(),
    {
        let q = to_lower(self.search_query.as_slice());
        let mut f: Vec<usize> = Vec::new();
        let mut i: usize = 0;
        proof {
            lemma_filter_up_to_bounds(self@.apps, q@, 0);
            assert(f@ =~= filter_up_to(self@.apps, q@, 0));
        }
        while i < self.apps.len()
            invariant
                i <= self.apps@.len(),
                q@ == lower_spec(self.search_query@),
                f@ == filter_up_to(models_of(self.apps@), q@, i as int),
                forall|k: int| 0 <= k < f@.len() ==> (#[trigger] f@[k] as int) < i,
            decreases self.apps@.len() - i,
        {
            proof {
                assert(models_of(self.apps@)[i as int] == self.apps@[i as int]@);
            }
            if entry_matches_exec(&self.apps[i], q.as_slice()) {
                f.push(i);
            }
            i += 1;
        }
        self.filtered = f;
        if self.selected >= self.filtered.len() && self.filtered.len() > 0 {
            self.selected = self.filtered.len() - 1;
        }
    }

    /// Toggle visibility; opening resets the query and selection.
    pub fn toggle(&mut self)
        requires
            old(self)@.wf(),
        ensures
            final(self)@ == toggle_spec(old(self)@),
            final(self)@.wf(),
    {
        self.visible = !self.visible;
        if self.visible {
            self.search_query = Vec::new();
            self.selected = 0;
            self.update_filter();
        }
    }

    /// Show the launcher with a fresh query and selection.
    pub fn show(&mut self)
        ensures
            final(self)@ == update_filter_spec(
                LauncherModel {
                    visible: true,
                    search_query: Seq::empty(),
                    selected: 0,
                    ..old(self)@
                },
            ),
            final(self)@.wf(),
    {
        self.visible = true;
        self.search_query = Vec::new();
        self.selected = 0;
        self.update_filter();
    }

    /// Hide the launcher; nothing else changes.
    pub fn dismiss(&mut self)
        ensures
            final(self)@ == (LauncherModel { visible: false, ..old(self)@ }),
    {
        self.visible = false;
    }

    /// Whether the overlay is shown.
    pub fn is_visible(&self) -> (r: bool)
        ensures
            r == self@.visible,
    {
        self.visible
    }

    /// The selected position within the filtered view, `None` when the
    /// filtered view is empty.
    pub fn selected_index(&self) -> (r: Option<usize>)
        ensures
            r == if self@.filtered.len() == 0 {
                Option::<usize>::None
            } else {
                Some(self@.selected)
            },
    {
        if self.filtered.len() == 0 {
            None
        } else {
            Some(self.selected)
        }
    }

    /// Append one byte to the query; the selection restarts at the top.
    pub fn type_char(&mut self, ch: u8)
        ensures
            final(self)@ == type_char_spec(old(self)@, ch),
            final(self)@.wf(),
    {
        self.search_query.push(ch);
        self.selected = 0;
        self.update_filter();
    }

    /// Remove the last query byte; the selection restarts at the top.
    pub fn backspace(&mut self)
        ensures
            final(self)@ == backspace_spec(old(self)@),
            final(self)@.wf(),
    {
        let _ = self.search_query.pop();
        self.selected = 0;
        self.update_filter();
    }

    /// Move the selection up by one, stopping at the top.
    pub fn select_prev(&mut self)
        ensures
            final(self)@ == (LauncherModel {
                selected: if old(self)@.selected > 0 {
                    (old(self)@.selected - 1) as usize
                } else {
                    old(self)@.selected
                },
                ..old(self)@
            }),
    {
        if self.selected > 0 {
            self.selected = self.selected - 1;
        }
    }

    /// Move the selection down by one, stopping at the bottom.
    pub fn select_next(&mut self)
        ensures
            final(self)@ == (LauncherModel {
                selected: if old(self)@.selected + 1 < old(self)@.filtered.len() {
                    (old(self)@.selected + 1) as usize
                } else {
                    old(self)@.selected
                },
                ..old(self)@
            }),
    {
        let flen = self.filtered.len();
        if self.selected < flen && self.selected + 1 < flen {
            self.selected = self.selected + 1;
        }
    }

    /// The launch command of the selected entry, if any.
    pub fn get_selected_exec(&self) -> (r: Option<Vec<u8>>)
        requires
            self@.wf(),
        ensures
            match r {
                Some(cmd) => self@.selected < self@.filtered.len() && cmd@ == self@.apps[self@.filtered[self@.selected as int] as int].exec_cmd,
                None => self@.selected >= self@.filtered.len(),
            },
    {
        if self.selected < self.filtered.len() {
            let idx = self.filtered[self.selected];
            proof {
                assert(models_of(self.apps@)[idx as int] == self.apps@[idx as int]@);
            }
            Some(self.apps[idx].exec_cmd.clone())
        } else {
            None
        }
    }

    /// Name and generic name of each filtered entry, in filtered order.
    pub fn visible_entries(&self) -> (r: Vec<(Vec<u8>, Vec<u8>)>)
        requires
            self@.wf(),
        ensures
            r@.len() == self@.filtered.len(),
            forall|k: int| 0 <= k < r@.len() ==> {
                &&& (#[trigger] r@[k]).0@ == self@.apps[self@.filtered[k] as int].name
                &&& r@[k].1@ == self@.apps[self@.filtered[k] as int].generic_name
            },
    {
        let mut out: Vec<(Vec<u8>, Vec<u8>)> = Vec::new();
        let mut k: usize = 0;
        while k < self.filtered.len()
            invariant
                self@.wf(),
                k <= self@.filtered.len(),
                out@.len() == k,
                forall|t: int| 0 <= t < k ==> {
                    &&& (#[trigger] out@[t]).0@ == self@.apps[self@.filtered[t] as int].name
                    &&& out@[t].1@ == self@.apps[self@.filtered[t] as int].generic_name
                },
            decreases self@.filtered.len() - k,
        {
            let idx = self.filtered[k];
            proof {
                assert(models_of(self.apps@)[idx as int] == self.apps@[idx as int]@);
            }
            out.push((self.apps[idx].name.clone(), self.apps[idx].generic_name.clone()));
            k += 1;
        }
        out
    }

    /// The current search query.
    pub fn search_query(&self) -> (r: &Vec<u8>)
        ensures
            r@ == self@.search_query,
    {
        &self.search_query
    }
}

/// Truncating division for a positive divisor: rounds toward zero, as
/// the hit-test arithmetic does.
pub open spec fn div_trunc(a: int, b: int) -> int {
    if a >= 0 {
        a / b
    } else {
        -((-a) / b)
    }
}

/// The launcher box: x, y, width, height, centered on the output.
pub open spec fn launcher_box_spec(out_w: int, out_h: int) -> (int, int, int, int) {
    let lw = if 800 <= out_w - 100 {
        800int
    } else {
        out_w - 100
    };
    let lh = if 600 <= out_h - 200 {
        600int
    } else {
        out_h - 200
    };
    ((out_w - lw) / 2, (out_h - lh) / 2, lw, lh)
}

/// Which launch command a click at `(x, y)` picks: inside the box,
/// below the search bar, mapped to a grid cell by integer division,
/// within the four-column three-row grid, and backed by a filtered
/// entry.  Anywhere else the click is a no-op.
pub open spec fn handle_click_spec(
    m: LauncherModel,
    x: int,
    y: int,
    out_w: int,
    out_h: int,
) -> Option<Seq<u8>> {
    if !m.visible {
        None
    } else {
        let (lx, ly, lw, lh) = launcher_box_spec(out_w, out_h);
        if x < lx || x > lx + lw || y < ly || y > ly + lh {
            None
        } else if y < ly + 90 {
            None
        } else if lw <= 60 || (lw - 60) / 4 <= 0 {
            None
        } else {
            let item_w = (lw - 60) / 4;
            let col = div_trunc(x - (lx + 30), item_w);
            let row = (y - (ly + 90)) / 100;
            if col < 0 || col >= 4 || row < 0 || row >= 3 {
                None
            } else {
                let idx = row * 4 + col;
                if idx < m.filtered.len() {
                    Some(m.apps[m.filtered[idx] as int].exec_cmd)
                } else {
                    None
                }
            }
        }
    }
}

impl AppLauncher {
    /// Map a click on the overlay to the launch command of the grid
    /// cell it hits, if any.
    pub fn handle_click(&self, x: i32, y: i32, out_w: i32, out_h: i32) -> (r: Option<Vec<u8>>)
        requires
            self@.wf(),
        ensures
            match handle_click_spec(self@, x as int, y as int, out_w as int, out_h as int) {
                Some(cmd) => r matches Some(v) && v@ == cmd,
                None => r is None,
            },
    {
        if !self.visible {
            return None;
        }
        let xw: i64 = x as i64;
        let yw: i64 = y as i64;
        let ow: i64 = out_w as i64;
        let oh: i64 = out_h as i64;
        let lw: i64 = if 800 <= ow - 100 {
            800
        } else {
            ow - 100
        };
        let lh: i64 = if 600 <= oh - 200 {
            600
        } else {
            oh - 200
        };
        let lx: i64 = (ow - lw) / 2;
        let ly: i64 = (oh - lh) / 2;
        if xw < lx || xw > lx + lw || yw < ly || yw > ly + lh {
            return None;
        }
        if yw < ly + 90 {
            return None;
        }
        if lw <= 60 {
            return None;
        }
        let item_w: i64 = (lw - 60) / 4;
        if item_w <= 0 {
            return None;
        }
        let dx: i64 = xw - (lx + 30);
        let col: i64 = if dx >= 0 {
            dx / item_w
        } else {
            -((-dx) / item_w)
        };
        let row: i64 = (yw - (ly + 90)) / 100;
        if col < 0 || col >= 4 || row < 0 || row >= 3 {
            return None;
        }
        let idx: usize = (row * 4 + col) as usize;
        if idx < self.filtered.len() {
            let app_idx = self.filtered[idx];
            proof {
                assert(models_of(self.apps@)[app_idx as int] == self.apps@[app_idx as int]@);
            }
            Some(self.apps[app_idx].exec_cmd.clone())
        } else {
            None
        }
    }
}

/// Does the entry match the (already folded) query?
fn entry_matches_exec(e: &AppEntry, q: &[u8]) -> (r: bool)
    ensures
        r == entry_matches(e@, q@),
{
    let folded_name = to_lower(e.name.as_slice());
    if contains_subseq(folded_name.as_slice(), q) {
        return true;
    }
    let folded_generic = to_lower(e.generic_name.as_slice());
    if contains_subseq(folded_generic.as_slice(), q) {
        return true;
    }
    let mut c: usize = 0;
    while c < e.categories.len()
        invariant
            c <= e.categories@.len(),
            e.categories@.len() == e@.categories.len(),
            forall|t: int| 0 <= t < c ==> !is_substring(
                lower_spec(#[trigger] e@.categories[t]),
                q@,
            ),
            !is_substring(lower_spec(e@.name), q@),
            !is_substring(lower_spec(e@.generic_name), q@),
        decreases e.categories@.len() - c,
    {
        proof {
            assert(e@.categories[c as int] == e.categories@[c as int]@);
        }
        let folded = to_lower(e.categories[c].as_slice());
        if contains_subseq(folded.as_slice(), q) {
            return true;
        }
        c += 1;
    }
    false
}

/// Every index that `filter_up_to` yields lies below `n`.
pub proof fn lemma_filter_up_to_bounds(apps: Seq<AppEntryModel>, q: Seq<u8>, n: int)
    ensures
        forall|k: int| 0 <= k < filter_up_to(apps, q, n).len() ==> (#[trigger] filter_up_to(
            apps,
            q,
            n,
        )[k] as int) < n,
    decreases n,
{
    if n > 0 {
        lemma_filter_up_to_bounds(apps, q, n - 1);
        let rest = filter_up_to(apps, q, n - 1);
        let f = filter_up_to(apps, q, n);
        assert forall|k: int| 0 <= k < f.len() implies (f[k] as int) < n by {
            if entry_matches(apps[n - 1], q) {
                if k < f.len() - 1 {
                    assert(f[k] == rest[k]);
                } else {
                    assert(f[k] == (n - 1) as usize);
                }
            } else {
                assert(f[k] == rest[k]);
            }
        }
    }
}

/// Sort entries case-insensitively by name: the result is sorted and
/// holds exactly the given entries.
fn sort_entries(input: Vec<AppEntry>) -> (r: Vec<AppEntry>)
    ensures
        entries_sorted(models_of(r@)),
        models_of(r@).to_multiset() == models_of(input@).to_multiset(),
{
    let ghost all = models_of(input@);
    let mut rest = input;
    let mut sorted: Vec<AppEntry> = Vec::new();
    proof {
        assert(models_of(sorted@) =~= Seq::<AppEntryModel>::empty());
        models_of(sorted@).to_multiset_ensures();
        assert(models_of(sorted@).to_multiset().add(models_of(rest@).to_multiset()) =~= models_of(
            rest@,
        ).to_multiset());
    }
    while rest.len() > 0
        invariant
            entries_sorted(models_of(sorted@)),
            models_of(sorted@).to_multiset().add(models_of(rest@).to_multiset())
                == all.to_multiset(),
        decreases rest@.len(),
    {
        let ghost pm = models_of(rest@);
        let e = match rest.pop() {
            Some(e) => e,
            None => {
                // Unreachable: the loop condition guarantees an element.
                return sorted;
            },
        };
        proof {
            assert(pm[pm.len() - 1] == rest@.push(e).index(pm.len() - 1)@);
            assert(e@ == pm.last());
            assert(models_of(rest@) =~= pm.drop_last());
            pm.to_multiset_ensures();
            assert(pm.remove(pm.len() - 1) =~= pm.drop_last());
            assert(pm.drop_last().to_multiset() =~= pm.to_multiset().remove(pm.last()));
            assert(pm.contains(pm.last())) by {
                assert(pm[pm.len() - 1] == pm.last());
            }
            assert(pm.to_multiset().contains(pm.last()));
        }
        let ghost sm = models_of(sorted@);
        insert_sorted(&mut sorted, e);
        proof {
            assert(models_of(sorted@).to_multiset() =~= sm.to_multiset().insert(e@));
            assert(models_of(sorted@).to_multiset().add(models_of(rest@).to_multiset())
                =~= sm.to_multiset().add(pm.to_multiset()));
        }
    }
    proof {
        assert(models_of(rest@) =~= Seq::<AppEntryModel>::empty());
        models_of(rest@).to_multiset_ensures();
        assert(models_of(sorted@).to_multiset() =~= models_of(sorted@).to_multiset().add(
            models_of(rest@).to_multiset(),
        ));
    }
    sorted
}

/// Insert one entry into a sorted vector, keeping it sorted.
fn insert_sorted(sorted: &mut Vec<AppEntry>, e: AppEntry)
    requires
        entries_sorted(models_of(old(sorted)@)),
    ensures
        entries_sorted(models_of(final(sorted)@)),
        models_of(final(sorted)@).to_multiset() == models_of(old(sorted)@).to_multiset().insert(
            e@,
        ),
{
    let key = to_lower(e.name.as_slice());
    let mut pos: usize = 0;
    loop
        invariant
            pos <= sorted@.len(),
            *sorted == *old(sorted),
            key@ == lower_spec(e@.name),
            forall|k: int| 0 <= k < pos ==> entry_le(#[trigger] models_of(sorted@)[k], e@),
        ensures
            pos <= sorted@.len(),
            *sorted == *old(sorted),
            forall|k: int| 0 <= k < pos ==> entry_le(#[trigger] models_of(sorted@)[k], e@),
            pos < sorted@.len() ==> !entry_le(models_of(sorted@)[pos as int], e@),
        decreases sorted@.len() - pos,
    {
        if pos >= sorted.len() {
            break ;
        }
        proof {
            assert(models_of(sorted@)[pos as int] == sorted@[pos as int]@);
        }
        let cur = to_lower(sorted[pos].name.as_slice());
        if !lex_le_exec(cur.as_slice(), key.as_slice()) {
            break ;
        }
        pos += 1;
    }
    proof {
        if pos < sorted@.len() {
            assert(models_of(sorted@)[pos as int] == sorted@[pos as int]@);
            crate::text::lemma_lex_le_total(
                lower_spec(models_of(sorted@)[pos as int].name),
                lower_spec(e@.name),
            );
        }
    }
    let ghost old_models = models_of(sorted@);
    sorted.insert(pos, e);
    proof {
        let new_models = models_of(sorted@);
        assert(new_models =~= old_models.insert(pos as int, e@));
        old_models.insert_ensures(pos as int, e@);
        // Sortedness: entries before `pos` are `<=` the new one, the
        // one at `pos` (if any) is `>=` it, and old pairs keep their
        // order.
        assert forall|a: int, b: int| 0 <= a < b < new_models.len() implies entry_le(
            new_models[a],
            new_models[b],
        ) by {
            if a < pos && b == pos {
            } else if a == pos && b > pos {
                assert(new_models[b] == old_models[b - 1]);
                assert(entry_le(e@, old_models[pos as int]));
                if (pos as int) < b - 1 {
                    assert(entry_le(old_models[pos as int], old_models[b - 1]));
                    crate::text::lemma_lex_le_trans(
                        lower_spec(e@.name),
                        lower_spec(old_models[pos as int].name),
                        lower_spec(old_models[b - 1].name),
                    );
                }
            } else if a < pos && b > pos {
                assert(new_models[a] == old_models[a]);
                assert(new_models[b] == old_models[b - 1]);
            } else if a > pos && b > pos {
                assert(new_models[a] == old_models[a - 1]);
                assert(new_models[b] == old_models[b - 1]);
            } else if a < pos && b < pos {
                assert(new_models[a] == old_models[a]);
                assert(new_models[b] == old_models[b]);
            }
        }
        // Multiset: inserting at `pos` adds exactly one copy of the
        // new entry.
        assert(new_models.remove(pos as int) =~= old_models);
        new_models.to_multiset_ensures();
        assert(new_models.remove(pos as int).to_multiset() =~= new_models.to_multiset().remove(
            new_models[pos as int],
        ));
        assert(new_models[pos as int] == e@);
        assert(new_models.to_multiset().contains(e@)) by {
            new_models.to_multiset_ensures();
            assert(new_models.contains(e@)) by {
                assert(new_models[pos as int] == e@);
            }
        }
        assert(new_models.to_multiset() =~= old_models.to_multiset().insert(e@));
    }
}

// ---------------------------------------------------------------------
// Laws
// ---------------------------------------------------------------------

/// Filtering with an empty query keeps every entry: the filtered view
/// is exactly `0, 1, ..., len - 1`, the full list in original order.
pub proof fn lemma_filter_empty_query(apps: Seq<AppEntryModel>)
    requires
        apps.len() <= usize::MAX,
    ensures
        filter_spec(apps, Seq::<u8>::empty()).len() == apps.len(),
        forall|k: int| 0 <= k < apps.len() ==> (#[trigger] filter_spec(
            apps,
            Seq::<u8>::empty(),
        )[k]) == k as usize,
{
    assert(lower_spec(Seq::<u8>::empty()) =~= Seq::<u8>::empty());
    lemma_filter_empty_up_to(apps, apps.len() as int);
}

proof fn lemma_filter_empty_up_to(apps: Seq<AppEntryModel>, n: int)
    requires
        n <= usize::MAX,
    ensures
        filter_up_to(apps, Seq::<u8>::empty(), n).len() == if n >= 0 {
            n
        } else {
            0
        },
        forall|k: int| 0 <= k < n ==> (#[trigger] filter_up_to(
            apps,
            Seq::<u8>::empty(),
            n,
        )[k]) == k as usize,
    decreases n,
{
    if n > 0 {
        lemma_filter_empty_up_to(apps, n - 1);
        lemma_empty_query_matches(apps[n - 1]);
    }
}

/// Every entry matches the empty query.
pub proof fn lemma_empty_query_matches(e: AppEntryModel)
    ensures
        entry_matches(e, Seq::<u8>::empty()),
{
    let hay = lower_spec(e.name);
    assert(hay.subrange(0, 0 + Seq::<u8>::empty().len() as int) =~= Seq::<u8>::empty());
    assert(is_substring(hay, Seq::<u8>::empty()));
}

/// A query that occurs in an entry's folded name puts that entry's
/// index into the filtered view.
pub proof fn lemma_query_in_name_found(apps: Seq<AppEntryModel>, q_raw: Seq<u8>, i: int)
    requires
        0 <= i < apps.len(),
        is_substring(lower_spec(apps[i].name), lower_spec(q_raw)),
    ensures
        filter_spec(apps, q_raw).contains(i as usize),
{
    lemma_matching_found(apps, lower_spec(q_raw), apps.len() as int, i);
}

proof fn lemma_matching_found(apps: Seq<AppEntryModel>, q: Seq<u8>, n: int, i: int)
    requires
        0 <= i < n <= apps.len(),
        entry_matches(apps[i], q),
    ensures
        filter_up_to(apps, q, n).contains(i as usize),
    decreases n,
{
    broadcast use vstd::seq_lib::group_seq_properties;

    if n - 1 == i {
        let f = filter_up_to(apps, q, n);
        assert(f == filter_up_to(apps, q, n - 1).push(i as usize));
        assert(f[f.len() - 1] == i as usize);
    } else {
        lemma_matching_found(apps, q, n - 1, i);
        let rest = filter_up_to(apps, q, n - 1);
        if entry_matches(apps[n - 1], q) {
            let w = choose|w: int| 0 <= w < rest.len() && rest[w] == i as usize;
            assert(rest.push((n - 1) as usize)[w] == i as usize);
        }
    }
}

} // verus!
