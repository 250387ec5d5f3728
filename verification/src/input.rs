use vstd::prelude::*;
use vstd::string::StrSliceExecFns;
use crate::entry::{Entry, EntryKind, models};
use crate::listing::FsSnapshot;
use crate::navigator::{
    Mode, Navigator, entered_and_previewed, jumped_first, left_parent, moved_by,
};

verus! {

/// One key event, as the host loop hands it to the state machine.
#[derive(Clone, Copy, Debug, PartialEq, Eq, Structural)]
pub enum KeyInput {
    /// The cancel key (escape).
    Cancel,
    /// The down arrow.
    DownArrow,
    /// The up arrow.
    UpArrow,
    /// The left arrow.
    LeftArrow,
    /// The right arrow.
    RightArrow,
    /// The accept key (enter).
    Accept,
    /// A printable character.
    Char(char),
    /// Any other key.
    Other,
}

/// What the host loop should do after one key: keep polling, abort the
/// navigation with no selection, or stop with the committed path.
#[derive(Debug)]
pub enum Signal {
    Continue,
    Abort,
    Commit(Vec<String>),
}

/// What `str::to_lowercase` returns for a given sequence of characters: a
/// function of the characters alone.
pub uninterp spec fn lower_of(s: Seq<char>) -> Seq<char>;

/// Relies on `str::to_lowercase`: the case-folded text, a function of the
/// characters alone.
#[verifier::external_body]
fn lowercase(s: &String) -> (r: String)
    ensures
        r@ == lower_of(s@),
{
    s.to_lowercase()
}

/// The case-folded name begins with the character `c`.
pub open spec fn lower_starts_with(name: Seq<char>, c: char) -> bool {
    lower_of(name).len() > 0 && lower_of(name)[0] == c
}

/// Decides whether a name, case-folded, begins with `c`.
fn name_matches(name: &String, c: char) -> (r: bool)
    ensures
        r == lower_starts_with(name@, c),
{
    let low = lowercase(name);
    let n = low.as_str().unicode_len();
    if n == 0 {
        false
    } else {
        low.as_str().get_char(0) == c
    }
}

/// Finds the first entry whose case-folded name begins with `c`.
fn find_matching(v: &Vec<Entry>, c: char) -> (r: Option<usize>)
    ensures
        match r {
            Some(i) => i < v@.len() && lower_starts_with(models(v@)[i as int].name, c)
                && (forall|k: int| 0 <= k < i ==> !lower_starts_with(models(v@)[k].name, c)),
            None => forall|k: int| 0 <= k < v@.len() ==> !lower_starts_with(models(v@)[k].name, c),
        },
{
    let mut i: usize = 0;
    while i < v.len()
        invariant
            i <= v@.len(),
            forall|k: int| 0 <= k < i ==> !lower_starts_with(models(v@)[k].name, c),
        decreases v@.len() - i,
    {
        if name_matches(&v[i].name, c) {
            return Some(i);
        }
        i = i + 1;
    }
    None
}

/// A key that the `Normal`-mode transition table ignores.
pub open spec fn normal_mode_ignores(key: KeyInput) -> bool {
    match key {
        KeyInput::Other => true,
        KeyInput::Char(c) => !(c == 'j' || c == 'J' || c == 'k' || c == 'K' || c == 'g'
            || c == 'G' || c == 'h' || c == 'l' || c == 'f' || c == 'q'),
        _ => false,
    }
}

/// Interprets one key event against the navigator.
///
/// In `Normal` mode: cancel aborts; down / up move the selection by one and
/// their shifted forms by five; `g` / `G` jump to the first / last entry
/// without touching the preview; left leaves the directory; right enters the
/// selected directory; `f` enters `Find` mode; accept (or `q`) commits the
/// selection when it is a directory and is ignored otherwise; anything else
/// is ignored.
///
/// In `Find` mode: a printable character moves the cursor to the first entry
/// whose case-folded name begins with it (unchanged when none does) and
/// refreshes the preview; whatever the key, the machine returns to `Normal`
/// after this single event.
pub fn handle_key(nav: &mut Navigator, fs: &FsSnapshot, key: KeyInput) -> (s: Signal)
    requires
        old(nav).wf(),
    ensures
        final(nav).wf(),
        final(nav).opts == old(nav).opts,
        old(nav).mode is Normal ==> {
            &&& (key == KeyInput::Cancel ==> s is Abort && *final(nav) == *old(nav))
            &&& ((key == KeyInput::DownArrow || key == KeyInput::Char('j')) ==> s is Continue
                && moved_by(*old(nav), *final(nav), *fs, 1))
            &&& (key == KeyInput::Char('J') ==> s is Continue && moved_by(
                *old(nav),
                *final(nav),
                *fs,
                5,
            ))
            &&& ((key == KeyInput::UpArrow || key == KeyInput::Char('k')) ==> s is Continue
                && moved_by(*old(nav), *final(nav), *fs, -1))
            &&& (key == KeyInput::Char('K') ==> s is Continue && moved_by(
                *old(nav),
                *final(nav),
                *fs,
                -5,
            ))
            &&& (key == KeyInput::Char('g') ==> s is Continue && jumped_first(
                *old(nav),
                *final(nav),
            ))
            &&& (key == KeyInput::Char('G') ==> s is Continue && *final(nav) == old(nav).spec_jump_last())
            &&& ((key == KeyInput::LeftArrow || key == KeyInput::Char('h')) ==> s is Continue && (
            old(nav).cwd@.len() == 0 ==> *final(nav) == *old(nav)) && (old(nav).cwd@.len() > 0
                ==> left_parent(*old(nav), *final(nav), *fs)))
            &&& ((key == KeyInput::RightArrow || key == KeyInput::Char('l')) ==> s is Continue && (
            old(nav).selected_dir_name() is None ==> *final(nav) == *old(nav)) && (old(nav).selected_dir_name() matches Some(nm) ==> entered_and_previewed(
                *old(nav),
                *final(nav),
                *fs,
                nm,
            )))
            &&& (key == KeyInput::Char('f') ==> s is Continue && *final(nav) == (Navigator {
                mode: Mode::Find,
                ..*old(nav)
            }))
            &&& ((key == KeyInput::Accept || key == KeyInput::Char('q')) ==> *final(nav) == *old(nav) && (old(nav).selected_dir_name() is None ==> s is Continue) && (old(nav).selected_dir_name() matches Some(nm) ==> (s matches Signal::Commit(p)
                && crate::listing::path_model(p@) == old(nav).cwd_model().push(nm))))
            &&& (normal_mode_ignores(key) ==> s is Continue && *final(nav) == *old(nav))
        },
        old(nav).mode is Find ==> {
            &&& s is Continue
            &&& final(nav).mode is Normal
            &&& (!(key matches KeyInput::Char(_)) ==> *final(nav) == (Navigator {
                mode: Mode::Normal,
                ..*old(nav)
            }))
            &&& (key matches KeyInput::Char(c) ==> {
                &&& final(nav).cwd == old(nav).cwd
                &&& final(nav).parent_pane == old(nav).parent_pane
                &&& final(nav).current_pane.items == old(nav).current_pane.items
                &&& ((exists|k: int|
                    0 <= k < old(nav).current_pane.items@.len() && lower_starts_with(
                        models(old(nav).current_pane.items@)[k].name,
                        c,
                    )) ==> (final(nav).current_pane.cursor matches Some(i) && i < final(nav).current_pane.items@.len() && lower_starts_with(
                    models(final(nav).current_pane.items@)[i as int].name,
                    c,
                ) && (forall|k: int|
                    0 <= k < i ==> !lower_starts_with(
                        models(final(nav).current_pane.items@)[k].name,
                        c,
                    ))))
                &&& ((forall|k: int|
                    0 <= k < old(nav).current_pane.items@.len() ==> !lower_starts_with(
                        models(old(nav).current_pane.items@)[k].name,
                        c,
                    )) ==> final(nav).current_pane.cursor == old(nav).current_pane.cursor)
                &&& final(nav).preview_pane_ok(*fs)
            })
        },
{
    match nav.mode {
        Mode::Normal => match key {
            KeyInput::Cancel => Signal::Abort,
            KeyInput::DownArrow => {
                nav.move_selection(fs, 1);
                Signal::Continue
            },
            KeyInput::UpArrow => {
                nav.move_selection(fs, -1);
                Signal::Continue
            },
            KeyInput::LeftArrow => {
                nav.leave(fs);
                Signal::Continue
            },
            KeyInput::RightArrow => {
                enter_and_refresh(nav, fs);
                Signal::Continue
            },
            KeyInput::Accept => commit(nav),
            KeyInput::Char(c) => {
                if c == 'j' {
                    nav.move_selection(fs, 1);
                    Signal::Continue
                } else if c == 'J' {
                    nav.move_selection(fs, 5);
                    Signal::Continue
                } else if c == 'k' {
                    nav.move_selection(fs, -1);
                    Signal::Continue
                } else if c == 'K' {
                    nav.move_selection(fs, -5);
                    Signal::Continue
                } else if c == 'g' {
                    nav.jump_first();
                    Signal::Continue
                } else if c == 'G' {
                    nav.jump_last();
                    Signal::Continue
                } else if c == 'h' {
                    nav.leave(fs);
                    Signal::Continue
                } else if c == 'l' {
                    enter_and_refresh(nav, fs);
                    Signal::Continue
                } else if c == 'f' {
                    nav.mode = Mode::Find;
                    Signal::Continue
                } else if c == 'q' {
                    commit(nav)
                } else {
                    Signal::Continue
                }
            },
            KeyInput::Other => Signal::Continue,
        },
        Mode::Find => {
            match key {
                KeyInput::Char(c) => {
                    let m = find_matching(&nav.current_pane.items, c);
                    match m {
                        Some(i) => {
                            nav.current_pane.cursor = Some(i);
                        },
                        None => {},
                    }
                    nav.refresh_preview(fs);
                },
                _ => {},
            }
            nav.mode = Mode::Normal;
            Signal::Continue
        },
    }
}

/// Enters the selected directory, then refreshes the preview from the new
/// current pane; no-op when the selection is absent or a file.
fn enter_and_refresh(nav: &mut Navigator, fs: &FsSnapshot)
    requires
        old(nav).wf(),
    ensures
        final(nav).wf(),
        old(nav).selected_dir_name() is None ==> *final(nav) == *old(nav),
        old(nav).selected_dir_name() matches Some(nm) ==> entered_and_previewed(
            *old(nav),
            *final(nav),
            *fs,
            nm,
        ),
{
    let is_dir = match nav.current_pane.selected() {
        Some(e) => match e.kind {
            EntryKind::Directory => true,
            EntryKind::File => false,
        },
        None => false,
    };
    nav.enter_selected(fs);
    if is_dir {
        nav.refresh_preview(fs);
    }
}

/// Commits the current selection: stops with its path when it is a
/// directory, keeps polling otherwise.
fn commit(nav: &mut Navigator) -> (s: Signal)
    ensures
        *final(nav) == *old(nav),
        old(nav).selected_dir_name() is None ==> s is Continue,
        old(nav).selected_dir_name() matches Some(nm) ==> (s matches Signal::Commit(p)
            && crate::listing::path_model(p@) == old(nav).cwd_model().push(nm)),
{
    match nav.commit_selection() {
        Some(p) => Signal::Commit(p),
        None => Signal::Continue,
    }
}

} // verus!
