use dirnav::{
    DirListing, DisplayOptions, Entry, EntryKind, FsSnapshot, KeyInput, Mode, Navigator,
    SelectableList, Signal, handle_key,
};

fn dir_entry(name: &str) -> Entry {
    Entry { name: name.to_string(), kind: EntryKind::Directory }
}

fn file_entry(name: &str) -> Entry {
    Entry { name: name.to_string(), kind: EntryKind::File }
}

fn path(parts: &[&str]) -> Vec<String> {
    parts.iter().map(|p| p.to_string()).collect()
}

fn opts() -> DisplayOptions {
    DisplayOptions { show_hidden: false, show_icons: false, accent: "red".to_string() }
}

fn pane_names(pane: &SelectableList) -> Vec<String> {
    pane.items.iter().map(|e| e.name.clone()).collect()
}

/// A small tree: / -> a; /a -> b (dir), c.txt (file); /a/b -> y (dir), x.txt.
fn sample_fs() -> FsSnapshot {
    FsSnapshot {
        dirs: vec![
            DirListing { path: path(&[]), entries: vec![dir_entry("a")] },
            DirListing {
                path: path(&["a"]),
                entries: vec![file_entry("c.txt"), dir_entry("b")],
            },
            DirListing {
                path: path(&["a", "b"]),
                entries: vec![file_entry("x.txt"), dir_entry("y")],
            },
        ],
    }
}

#[test]
fn listing_is_directory_first_and_preview_follows_selection() {
    let fs = sample_fs();
    let nav = Navigator::new(&fs, path(&["a"]), opts());
    assert_eq!(pane_names(&nav.current_pane), vec!["b".to_string(), "c.txt".to_string()]);
    assert_eq!(nav.current_pane.cursor, Some(0));
    assert_eq!(pane_names(&nav.parent_pane), vec!["a".to_string()]);
    assert_eq!(nav.parent_pane.cursor, Some(0));
    assert_eq!(pane_names(&nav.preview_pane), vec!["y".to_string(), "x.txt".to_string()]);
}

#[test]
fn leave_at_root_changes_nothing() {
    let fs = sample_fs();
    let mut nav = Navigator::new(&fs, path(&[]), opts());
    let cwd_before = nav.cwd.clone();
    let parent_before = pane_names(&nav.parent_pane);
    let current_before = pane_names(&nav.current_pane);
    let preview_before = pane_names(&nav.preview_pane);
    let cursors_before = (nav.parent_pane.cursor, nav.current_pane.cursor, nav.preview_pane.cursor);

    let s = handle_key(&mut nav, &fs, KeyInput::LeftArrow);

    assert!(matches!(s, Signal::Continue));
    assert_eq!(nav.cwd, cwd_before);
    assert_eq!(pane_names(&nav.parent_pane), parent_before);
    assert_eq!(pane_names(&nav.current_pane), current_before);
    assert_eq!(pane_names(&nav.preview_pane), preview_before);
    assert_eq!(
        (nav.parent_pane.cursor, nav.current_pane.cursor, nav.preview_pane.cursor),
        cursors_before
    );
}

#[test]
fn enter_then_leave_restores_directory_and_cursor() {
    let fs = sample_fs();
    let mut nav = Navigator::new(&fs, path(&["a"]), opts());
    assert_eq!(nav.current_pane.selected().unwrap().name, "b");

    let s = handle_key(&mut nav, &fs, KeyInput::RightArrow);
    assert!(matches!(s, Signal::Continue));
    assert_eq!(nav.cwd, path(&["a", "b"]));
    assert_eq!(pane_names(&nav.current_pane), vec!["y".to_string(), "x.txt".to_string()]);
    assert_eq!(nav.current_pane.cursor, Some(0));
    assert_eq!(pane_names(&nav.parent_pane), vec!["b".to_string(), "c.txt".to_string()]);
    assert_eq!(nav.parent_pane.cursor, Some(0));

    let s = handle_key(&mut nav, &fs, KeyInput::LeftArrow);
    assert!(matches!(s, Signal::Continue));
    assert_eq!(nav.cwd, path(&["a"]));
    assert_eq!(nav.current_pane.selected().unwrap().name, "b");
}

#[test]
fn entering_a_file_is_ignored() {
    let fs = sample_fs();
    let mut nav = Navigator::new(&fs, path(&["a"]), opts());
    handle_key(&mut nav, &fs, KeyInput::DownArrow);
    assert_eq!(nav.current_pane.selected().unwrap().name, "c.txt");
    let s = handle_key(&mut nav, &fs, KeyInput::RightArrow);
    assert!(matches!(s, Signal::Continue));
    assert_eq!(nav.cwd, path(&["a"]));
    assert_eq!(nav.current_pane.selected().unwrap().name, "c.txt");
}

#[test]
fn find_jumps_to_first_match_and_returns_to_normal() {
    let fs = FsSnapshot {
        dirs: vec![DirListing {
            path: path(&[]),
            entries: vec![file_entry("apple"), file_entry("banana"), file_entry("cherry")],
        }],
    };
    let mut nav = Navigator::new(&fs, path(&[]), opts());
    let s = handle_key(&mut nav, &fs, KeyInput::Char('f'));
    assert!(matches!(s, Signal::Continue));
    assert!(matches!(nav.mode, Mode::Find));

    let s = handle_key(&mut nav, &fs, KeyInput::Char('b'));
    assert!(matches!(s, Signal::Continue));
    assert!(matches!(nav.mode, Mode::Normal));
    assert_eq!(nav.current_pane.selected().unwrap().name, "banana");
}

#[test]
fn find_with_no_match_leaves_cursor_and_returns_to_normal() {
    let fs = FsSnapshot {
        dirs: vec![DirListing {
            path: path(&[]),
            entries: vec![file_entry("apple"), file_entry("banana"), file_entry("cherry")],
        }],
    };
    let mut nav = Navigator::new(&fs, path(&[]), opts());
    handle_key(&mut nav, &fs, KeyInput::DownArrow);
    assert_eq!(nav.current_pane.cursor, Some(1));
    handle_key(&mut nav, &fs, KeyInput::Char('f'));
    let s = handle_key(&mut nav, &fs, KeyInput::Char('z'));
    assert!(matches!(s, Signal::Continue));
    assert!(matches!(nav.mode, Mode::Normal));
    assert_eq!(nav.current_pane.cursor, Some(1));
}

#[test]
fn find_case_folds_entry_names() {
    let fs = FsSnapshot {
        dirs: vec![DirListing {
            path: path(&[]),
            entries: vec![file_entry("BANANA"), file_entry("zeta")],
        }],
    };
    let mut nav = Navigator::new(&fs, path(&[]), opts());
    handle_key(&mut nav, &fs, KeyInput::DownArrow);
    assert_eq!(nav.current_pane.selected().unwrap().name, "zeta");
    handle_key(&mut nav, &fs, KeyInput::Char('f'));
    handle_key(&mut nav, &fs, KeyInput::Char('b'));
    assert_eq!(nav.current_pane.selected().unwrap().name, "BANANA");
}

#[test]
fn commit_on_a_file_yields_nothing_and_stays_interactive() {
    let fs = sample_fs();
    let mut nav = Navigator::new(&fs, path(&["a"]), opts());
    handle_key(&mut nav, &fs, KeyInput::DownArrow);
    assert_eq!(nav.current_pane.selected().unwrap().name, "c.txt");

    let s = handle_key(&mut nav, &fs, KeyInput::Accept);
    assert!(matches!(s, Signal::Continue));
    assert_eq!(nav.cwd, path(&["a"]));

    let s = handle_key(&mut nav, &fs, KeyInput::UpArrow);
    assert!(matches!(s, Signal::Continue));
    assert_eq!(nav.current_pane.selected().unwrap().name, "b");
}

#[test]
fn commit_on_a_directory_yields_its_path() {
    let fs = sample_fs();
    let mut nav = Navigator::new(&fs, path(&["a"]), opts());
    let s = handle_key(&mut nav, &fs, KeyInput::Accept);
    match s {
        Signal::Commit(p) => assert_eq!(p, path(&["a", "b"])),
        _ => panic!("expected a committed path"),
    }
}

#[test]
fn cancel_aborts_without_changing_state() {
    let fs = sample_fs();
    let mut nav = Navigator::new(&fs, path(&["a"]), opts());
    let cwd_before = nav.cwd.clone();
    let s = handle_key(&mut nav, &fs, KeyInput::Cancel);
    assert!(matches!(s, Signal::Abort));
    assert_eq!(nav.cwd, cwd_before);
}

#[test]
fn bulk_moves_clamp_at_the_ends() {
    let fs = sample_fs();
    let mut nav = Navigator::new(&fs, path(&["a"]), opts());
    handle_key(&mut nav, &fs, KeyInput::Char('J'));
    assert_eq!(nav.current_pane.cursor, Some(1));
    handle_key(&mut nav, &fs, KeyInput::Char('K'));
    assert_eq!(nav.current_pane.cursor, Some(0));
}

#[test]
fn jumps_move_cursor_but_not_preview() {
    let fs = sample_fs();
    let mut nav = Navigator::new(&fs, path(&["a"]), opts());
    let preview_before = pane_names(&nav.preview_pane);
    assert_eq!(preview_before, vec!["y".to_string(), "x.txt".to_string()]);

    handle_key(&mut nav, &fs, KeyInput::Char('G'));
    assert_eq!(nav.current_pane.selected().unwrap().name, "c.txt");
    assert_eq!(pane_names(&nav.preview_pane), preview_before);

    handle_key(&mut nav, &fs, KeyInput::Char('g'));
    assert_eq!(nav.current_pane.selected().unwrap().name, "b");
    assert_eq!(pane_names(&nav.preview_pane), preview_before);
}

#[test]
fn moving_the_selection_refreshes_the_preview() {
    let fs = sample_fs();
    let mut nav = Navigator::new(&fs, path(&["a"]), opts());
    handle_key(&mut nav, &fs, KeyInput::DownArrow);
    assert!(pane_names(&nav.preview_pane).is_empty());
    handle_key(&mut nav, &fs, KeyInput::UpArrow);
    assert_eq!(pane_names(&nav.preview_pane), vec!["y".to_string(), "x.txt".to_string()]);
}

fn hidden_cwd_fs() -> FsSnapshot {
    FsSnapshot {
        dirs: vec![
            DirListing { path: path(&[]), entries: vec![dir_entry(".secret"), dir_entry("visible")] },
            DirListing { path: path(&[".secret"]), entries: vec![file_entry("note")] },
        ],
    }
}

#[test]
fn marker_absent_when_current_directory_is_filtered_out() {
    let fs = hidden_cwd_fs();
    let nav = Navigator::new(&fs, path(&[".secret"]), opts());
    assert_eq!(pane_names(&nav.parent_pane), vec!["visible".to_string()]);
    assert_eq!(nav.parent_pane.cursor, None);
}

#[test]
fn leave_falls_back_to_no_selection_when_entry_is_not_listed() {
    let fs = hidden_cwd_fs();
    let mut nav = Navigator::new(&fs, path(&[".secret"]), opts());
    let s = handle_key(&mut nav, &fs, KeyInput::Char('h'));
    assert!(matches!(s, Signal::Continue));
    assert_eq!(nav.cwd, path(&[]));
    assert_eq!(pane_names(&nav.current_pane), vec!["visible".to_string()]);
    assert_eq!(nav.current_pane.cursor, None);
    assert!(pane_names(&nav.preview_pane).is_empty());
}

#[test]
fn ignored_keys_change_nothing() {
    let fs = sample_fs();
    let mut nav = Navigator::new(&fs, path(&["a"]), opts());
    let cursor_before = nav.current_pane.cursor;
    let s = handle_key(&mut nav, &fs, KeyInput::Other);
    assert!(matches!(s, Signal::Continue));
    let s = handle_key(&mut nav, &fs, KeyInput::Char('x'));
    assert!(matches!(s, Signal::Continue));
    assert_eq!(nav.current_pane.cursor, cursor_before);
}
