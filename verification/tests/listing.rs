use dirnav::{DirListing, Entry, EntryKind, FsSnapshot, list_dir, path_eq};

fn dir_entry(name: &str) -> Entry {
    Entry { name: name.to_string(), kind: EntryKind::Directory }
}

fn file_entry(name: &str) -> Entry {
    Entry { name: name.to_string(), kind: EntryKind::File }
}

fn path(parts: &[&str]) -> Vec<String> {
    parts.iter().map(|p| p.to_string()).collect()
}

fn names(entries: &[Entry]) -> Vec<String> {
    entries.iter().map(|e| e.name.clone()).collect()
}

#[test]
fn directories_sort_before_files() {
    let fs = FsSnapshot {
        dirs: vec![DirListing {
            path: path(&["a"]),
            entries: vec![file_entry("c.txt"), dir_entry("b")],
        }],
    };
    let listed = list_dir(&fs, &path(&["a"]), false);
    assert_eq!(names(&listed), vec!["b".to_string(), "c.txt".to_string()]);
    assert!(matches!(listed[0].kind, EntryKind::Directory));
    assert!(matches!(listed[1].kind, EntryKind::File));
}

#[test]
fn lexicographic_within_each_kind_group() {
    let fs = FsSnapshot {
        dirs: vec![DirListing {
            path: path(&[]),
            entries: vec![
                file_entry("zeta"),
                dir_entry("mu"),
                file_entry("alpha"),
                dir_entry("delta"),
                file_entry("beta"),
            ],
        }],
    };
    let listed = list_dir(&fs, &path(&[]), false);
    assert_eq!(
        names(&listed),
        vec![
            "delta".to_string(),
            "mu".to_string(),
            "alpha".to_string(),
            "beta".to_string(),
            "zeta".to_string()
        ]
    );
}

#[test]
fn hidden_entries_excluded_by_default() {
    let fs = FsSnapshot {
        dirs: vec![DirListing {
            path: path(&["home"]),
            entries: vec![file_entry(".profile"), dir_entry(".config"), file_entry("notes")],
        }],
    };
    let listed = list_dir(&fs, &path(&["home"]), false);
    assert_eq!(names(&listed), vec!["notes".to_string()]);
}

#[test]
fn hidden_entries_kept_when_flag_set() {
    let fs = FsSnapshot {
        dirs: vec![DirListing {
            path: path(&["home"]),
            entries: vec![file_entry(".profile"), dir_entry(".config"), file_entry("notes")],
        }],
    };
    let listed = list_dir(&fs, &path(&["home"]), true);
    assert_eq!(
        names(&listed),
        vec![".config".to_string(), ".profile".to_string(), "notes".to_string()]
    );
}

#[test]
fn unknown_directory_lists_empty() {
    let fs = FsSnapshot { dirs: vec![] };
    let listed = list_dir(&fs, &path(&["nowhere"]), true);
    assert!(listed.is_empty());
}

#[test]
fn names_compare_by_character_value() {
    let fs = FsSnapshot {
        dirs: vec![DirListing {
            path: path(&[]),
            entries: vec![file_entry("ab"), file_entry("a"), file_entry("Z")],
        }],
    };
    let listed = list_dir(&fs, &path(&[]), false);
    assert_eq!(names(&listed), vec!["Z".to_string(), "a".to_string(), "ab".to_string()]);
}

#[test]
fn path_eq_compares_componentwise() {
    assert!(path_eq(&path(&["a", "b"]), &path(&["a", "b"])));
    assert!(!path_eq(&path(&["a", "b"]), &path(&["a"])));
    assert!(!path_eq(&path(&["a", "b"]), &path(&["a", "c"])));
    assert!(path_eq(&path(&[]), &path(&[])));
}
