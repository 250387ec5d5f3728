use dirnav::{Entry, EntryKind, SelectableList};

fn file_entry(name: &str) -> Entry {
    Entry { name: name.to_string(), kind: EntryKind::File }
}

fn list_of(names: &[&str], cursor: Option<usize>) -> SelectableList {
    SelectableList::with_items(names.iter().map(|n| file_entry(n)).collect(), cursor)
}

#[test]
fn advance_clamps_at_last_index() {
    let mut l = list_of(&["a", "b", "c"], Some(1));
    l.advance();
    assert_eq!(l.cursor, Some(2));
    l.advance();
    assert_eq!(l.cursor, Some(2));
}

#[test]
fn retreat_clamps_at_first_index() {
    let mut l = list_of(&["a", "b", "c"], Some(1));
    l.retreat();
    assert_eq!(l.cursor, Some(0));
    l.retreat();
    assert_eq!(l.cursor, Some(0));
}

#[test]
fn empty_list_ignores_all_cursor_motion() {
    let mut l = list_of(&[], None);
    l.advance();
    assert_eq!(l.cursor, None);
    l.retreat();
    assert_eq!(l.cursor, None);
    l.jump_to_start();
    assert_eq!(l.cursor, None);
    l.jump_to_end();
    assert_eq!(l.cursor, None);
    assert!(l.selected().is_none());
}

#[test]
fn cursor_present_iff_nonempty_after_any_steps() {
    let mut l = list_of(&["a", "b", "c", "d"], None);
    l.advance();
    let steps: [i32; 7] = [1, 1, -1, 1, 1, 1, -1];
    for s in steps {
        if s > 0 {
            l.advance();
        } else {
            l.retreat();
        }
        let c = l.cursor.expect("non-empty list must keep a cursor");
        assert!(c < 4);
    }
}

#[test]
fn jump_to_end_is_idempotent() {
    let mut l = list_of(&["a", "b", "c"], Some(0));
    l.jump_to_end();
    let once = l.cursor;
    l.jump_to_end();
    assert_eq!(l.cursor, once);
    assert_eq!(once, Some(2));
}

#[test]
fn advance_by_composes_single_steps() {
    let mut l = list_of(&["a", "b", "c", "d", "e"], Some(1));
    l.advance_by(2);
    assert_eq!(l.cursor, Some(3));
    l.advance_by(5);
    assert_eq!(l.cursor, Some(4));
    l.retreat_by(3);
    assert_eq!(l.cursor, Some(1));
    l.retreat_by(9);
    assert_eq!(l.cursor, Some(0));
}

#[test]
fn selected_returns_entry_at_cursor() {
    let l = list_of(&["a", "b", "c"], Some(1));
    assert_eq!(l.selected().unwrap().name, "b");
}

#[test]
fn replace_swaps_sequence_and_cursor_atomically() {
    let mut l = list_of(&["a"], Some(0));
    l.replace(vec![file_entry("x"), file_entry("y")], Some(1));
    assert_eq!(l.selected().unwrap().name, "y");
    l.replace(Vec::new(), None);
    assert!(l.selected().is_none());
}
