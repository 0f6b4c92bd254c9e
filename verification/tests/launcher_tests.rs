//! Launcher: descriptor parsing, sorting, filtering, selection, and
//! the grid hit-test.

use heydm::launcher::AppLauncher;

fn file(path: &str, content: &str) -> (Vec<u8>, Vec<u8>) {
    (path.as_bytes().to_vec(), content.as_bytes().to_vec())
}

fn sample_files() -> Vec<(Vec<u8>, Vec<u8>)> {
    vec![
        file(
            "/usr/share/applications/zed.desktop",
            "[Desktop Entry]\nName=Zed\nExec=zed %U\nIcon=zed\nCategories=Development;Utility;\n",
        ),
        file(
            "/usr/share/applications/firefox.desktop",
            "[Desktop Entry]\nName=Firefox\nGenericName=Web Browser\nExec=firefox %u\nCategories=Network;WebBrowser;\n",
        ),
        file(
            "/usr/share/applications/amused.desktop",
            "[Desktop Entry]\nName=amused\nExec=amused\n",
        ),
    ]
}

#[test]
fn scan_sorts_case_insensitively_by_name() {
    let launcher = AppLauncher::new(&sample_files());
    let names: Vec<&[u8]> = launcher.apps.iter().map(|a| a.name.as_slice()).collect();
    assert_eq!(names, vec![&b"amused"[..], &b"Firefox"[..], &b"Zed"[..]]);
}

#[test]
fn hidden_entry_is_excluded() {
    let files = vec![
        file(
            "/a/visible.desktop",
            "[Desktop Entry]\nName=Visible\nExec=visible\n",
        ),
        file(
            "/a/hidden.desktop",
            "[Desktop Entry]\nName=Ghost\nExec=ghost\nHidden=true\n",
        ),
    ];
    let launcher = AppLauncher::new(&files);
    assert_eq!(launcher.apps.len(), 1);
    assert_eq!(launcher.apps[0].name, b"Visible".to_vec());
}

#[test]
fn no_display_entry_is_excluded() {
    let files = vec![file(
        "/a/x.desktop",
        "[Desktop Entry]\nName=X\nExec=x\nNoDisplay=True\n",
    )];
    let launcher = AppLauncher::new(&files);
    assert!(launcher.apps.is_empty());
}

#[test]
fn entry_without_name_or_exec_is_excluded() {
    let files = vec![
        file("/a/noname.desktop", "[Desktop Entry]\nExec=prog\n"),
        file("/a/noexec.desktop", "[Desktop Entry]\nName=Prog\n"),
    ];
    let launcher = AppLauncher::new(&files);
    assert!(launcher.apps.is_empty());
}

#[test]
fn exec_field_codes_are_stripped() {
    let files = vec![file(
        "/a/term.desktop",
        "[Desktop Entry]\nName=Term\nExec=term %f %F %u %U --flag %d %D %n %N %k %v\n",
    )];
    let launcher = AppLauncher::new(&files);
    assert_eq!(launcher.apps[0].exec_cmd, b"term     --flag".to_vec());
}

#[test]
fn keys_outside_desktop_entry_section_are_ignored() {
    let files = vec![file(
        "/a/app.desktop",
        "Name=Early\n[Desktop Entry]\nName=Real\nExec=real\n[Desktop Action x]\nName=Other\nExec=other\n",
    )];
    let launcher = AppLauncher::new(&files);
    assert_eq!(launcher.apps.len(), 1);
    assert_eq!(launcher.apps[0].name, b"Real".to_vec());
    assert_eq!(launcher.apps[0].exec_cmd, b"real".to_vec());
}

#[test]
fn categories_are_split_and_trimmed() {
    let files = vec![file(
        "/a/app.desktop",
        "[Desktop Entry]\nName=A\nExec=a\nCategories= Development ; ;Utility;\n",
    )];
    let launcher = AppLauncher::new(&files);
    let cats = &launcher.apps[0].categories;
    assert_eq!(cats.len(), 2);
    assert_eq!(cats[0], b"Development".to_vec());
    assert_eq!(cats[1], b"Utility".to_vec());
}

#[test]
fn query_substring_of_name_is_found() {
    let mut launcher = AppLauncher::new(&sample_files());
    launcher.show();
    for b in b"fire" {
        launcher.type_char(*b);
    }
    let entries = launcher.visible_entries();
    assert_eq!(entries.len(), 1);
    assert_eq!(entries[0].0, b"Firefox".to_vec());
}

#[test]
fn query_is_case_folded() {
    let mut launcher = AppLauncher::new(&sample_files());
    launcher.show();
    for b in b"FIREFOX" {
        launcher.type_char(*b);
    }
    assert_eq!(launcher.visible_entries().len(), 1);
}

#[test]
fn query_matches_generic_name_and_categories() {
    let mut launcher = AppLauncher::new(&sample_files());
    launcher.show();
    for b in b"browser" {
        launcher.type_char(*b);
    }
    // Matches Firefox via GenericName "Web Browser" and the
    // "WebBrowser" category.
    let entries = launcher.visible_entries();
    assert_eq!(entries.len(), 1);
    assert_eq!(entries[0].1, b"Web Browser".to_vec());
}

#[test]
fn clearing_query_restores_sorted_list() {
    let mut launcher = AppLauncher::new(&sample_files());
    launcher.show();
    let before: Vec<Vec<u8>> = launcher
        .visible_entries()
        .into_iter()
        .map(|(n, _)| n)
        .collect();
    for b in b"zed" {
        launcher.type_char(*b);
    }
    assert_eq!(launcher.visible_entries().len(), 1);
    for _ in 0..3 {
        launcher.backspace();
    }
    let after: Vec<Vec<u8>> = launcher
        .visible_entries()
        .into_iter()
        .map(|(n, _)| n)
        .collect();
    assert_eq!(before, after);
    assert_eq!(after.len(), 3);
}

#[test]
fn unmatched_query_gives_empty_view() {
    let mut launcher = AppLauncher::new(&sample_files());
    launcher.show();
    for b in b"nosuchapp" {
        launcher.type_char(*b);
    }
    assert!(launcher.visible_entries().is_empty());
    assert_eq!(launcher.selected_index(), None);
    assert_eq!(launcher.get_selected_exec(), None);
}

#[test]
fn selection_moves_and_clamps() {
    let mut launcher = AppLauncher::new(&sample_files());
    launcher.show();
    assert_eq!(launcher.selected_index(), Some(0));
    launcher.select_prev();
    assert_eq!(launcher.selected_index(), Some(0));
    launcher.select_next();
    launcher.select_next();
    assert_eq!(launcher.selected_index(), Some(2));
    launcher.select_next();
    assert_eq!(launcher.selected_index(), Some(2));
}

#[test]
fn selection_clamped_when_filter_shrinks() {
    let mut launcher = AppLauncher::new(&sample_files());
    launcher.show();
    launcher.select_next();
    launcher.select_next();
    // Typing resets the selection to the top.
    launcher.type_char(b'a');
    assert_eq!(launcher.selected_index(), Some(0));
}

#[test]
fn selected_exec_follows_filter() {
    let mut launcher = AppLauncher::new(&sample_files());
    launcher.show();
    for b in b"zed" {
        launcher.type_char(*b);
    }
    assert_eq!(launcher.get_selected_exec(), Some(b"zed".to_vec()));
}

#[test]
fn toggle_resets_query_and_selection() {
    let mut launcher = AppLauncher::new(&sample_files());
    assert!(!launcher.is_visible());
    launcher.toggle();
    assert!(launcher.is_visible());
    for b in b"zed" {
        launcher.type_char(*b);
    }
    launcher.toggle();
    assert!(!launcher.is_visible());
    launcher.toggle();
    assert!(launcher.is_visible());
    assert_eq!(launcher.search_query(), &Vec::<u8>::new());
    assert_eq!(launcher.visible_entries().len(), 3);
}

#[test]
fn dismiss_only_hides() {
    let mut launcher = AppLauncher::new(&sample_files());
    launcher.show();
    for b in b"zed" {
        launcher.type_char(*b);
    }
    launcher.dismiss();
    assert!(!launcher.is_visible());
    assert_eq!(launcher.search_query(), &b"zed".to_vec());
}

#[test]
fn click_on_first_grid_cell_picks_first_entry() {
    let mut launcher = AppLauncher::new(&sample_files());
    launcher.show();
    // On a 1920x1080 output the box is 800x600 at (560, 240); the grid
    // starts at (590, 330).
    let hit = launcher.handle_click(600, 340, 1920, 1080);
    assert_eq!(hit, Some(b"amused".to_vec()));
}

#[test]
fn click_maps_row_and_column() {
    let mut launcher = AppLauncher::new(&sample_files());
    launcher.show();
    // item_w = (800 - 60) / 4 = 185: the third column starts at
    // x = 590 + 2 * 185 = 960; entries are sorted amused, Firefox, Zed.
    let hit = launcher.handle_click(965, 340, 1920, 1080);
    assert_eq!(hit, Some(b"zed".to_vec()));
}

#[test]
fn click_in_search_bar_is_noop() {
    let mut launcher = AppLauncher::new(&sample_files());
    launcher.show();
    assert_eq!(launcher.handle_click(700, 300, 1920, 1080), None);
}

#[test]
fn click_outside_box_is_noop() {
    let mut launcher = AppLauncher::new(&sample_files());
    launcher.show();
    assert_eq!(launcher.handle_click(10, 10, 1920, 1080), None);
    assert_eq!(launcher.handle_click(1910, 1070, 1920, 1080), None);
}

#[test]
fn click_on_empty_cell_is_noop() {
    let mut launcher = AppLauncher::new(&sample_files());
    launcher.show();
    // Second row, first column: cell index 4, but only 3 entries.
    assert_eq!(launcher.handle_click(600, 440, 1920, 1080), None);
}

#[test]
fn click_when_hidden_is_noop() {
    let launcher = AppLauncher::new(&sample_files());
    assert_eq!(launcher.handle_click(600, 340, 1920, 1080), None);
}
