use vstd::prelude::*;
use crate::entry::{Entry, EntryKind, EntryModel, models};
use crate::listing::{FsSnapshot, is_listing, list_dir, path_model};
use crate::selectable::{
    SelectableList, jumped_to_start, moved_toward_end, moved_toward_start,
};

verus! {

/// Presentation choices fixed at startup, immutable for the process
/// lifetime.
pub struct DisplayOptions {
    pub show_hidden: bool,
    pub show_icons: bool,
    pub accent: String,
}

/// The input interpretation mode: `Find` is a transient sub-state that lasts
/// for the handling of a single further key event.
#[derive(Clone, Copy, Debug, PartialEq, Eq, Structural)]
pub enum Mode {
    Normal,
    Find,
}

/// The aggregate navigation state: one logical current directory, the three
/// panes derived from it, the input mode, and the display options.
///
/// The current directory is an explicit value (its components from the
/// root), not ambient process state; whoever mirrors it into a working
/// directory does so outside this type.
pub struct Navigator {
    pub cwd: Vec<String>,
    pub parent_pane: SelectableList,
    pub current_pane: SelectableList,
    pub preview_pane: SelectableList,
    pub mode: Mode,
    pub opts: DisplayOptions,
}

/// The pane's cursor marks the entry named `name`: it points at an entry of
/// that name, or no entry of the pane carries it.
pub open spec fn marks_name(pane: SelectableList, name: Seq<char>) -> bool {
    match pane.cursor {
        Some(i) => i < pane.items@.len() && models(pane.items@)[i as int].name == name,
        None => forall|k: int|
            0 <= k < pane.items@.len() ==> models(pane.items@)[k].name != name,
    }
}

impl Navigator {
    /// The index-bounds invariant of every pane.
    pub open spec fn wf(self) -> bool {
        &&& self.parent_pane.wf()
        &&& self.current_pane.wf()
        &&& self.preview_pane.wf()
    }

    /// The current directory as a path value.
    pub open spec fn cwd_model(self) -> Seq<Seq<char>> {
        path_model(self.cwd@)
    }

    /// The raw children of the parent of the current directory; none at the
    /// filesystem root.
    pub open spec fn parent_raw(self, fs: FsSnapshot) -> Seq<EntryModel> {
        if self.cwd@.len() > 0 {
            fs.raw_listing(self.cwd_model().drop_last())
        } else {
            Seq::empty()
        }
    }

    /// The name of the current-pane selection, when it is a directory.
    pub open spec fn selected_dir_name(self) -> Option<Seq<char>> {
        match self.current_pane.selected_model() {
            Some(e) => if e.kind is Directory {
                Some(e.name)
            } else {
                None
            },
            None => None,
        }
    }

    /// The raw children of the directory selected in the current pane; none
    /// when the selection is absent or not a directory.
    pub open spec fn preview_raw(self, fs: FsSnapshot) -> Seq<EntryModel> {
        match self.selected_dir_name() {
            Some(nm) => fs.raw_listing(self.cwd_model().push(nm)),
            None => Seq::empty(),
        }
    }

    /// The parent pane lists the parent of the current directory, with its
    /// cursor marking the component the current directory was reached by:
    /// the "you are here" marker.
    pub open spec fn parent_pane_ok(self, fs: FsSnapshot) -> bool {
        &&& is_listing(models(self.parent_pane.items@), self.parent_raw(fs), self.opts.show_hidden)
        &&& (self.cwd@.len() > 0 ==> marks_name(self.parent_pane, self.cwd_model().last()))
    }

    /// The current pane lists the current directory.
    pub open spec fn current_pane_ok(self, fs: FsSnapshot) -> bool {
        is_listing(models(self.current_pane.items@), fs.raw_listing(self.cwd_model()), self.opts.show_hidden)
    }

    /// The preview pane lists the directory selected in the current pane,
    /// with no selection of its own.
    pub open spec fn preview_pane_ok(self, fs: FsSnapshot) -> bool {
        &&& is_listing(models(self.preview_pane.items@), self.preview_raw(fs), self.opts.show_hidden)
        &&& self.preview_pane.cursor is None
    }

    /// All three panes are consistent with the snapshot and the current
    /// directory.
    pub open spec fn consistent_with(self, fs: FsSnapshot) -> bool {
        &&& self.parent_pane_ok(fs)
        &&& self.current_pane_ok(fs)
        &&& self.preview_pane_ok(fs)
    }

    /// This navigator with the current-pane cursor on the last entry.
    pub open spec fn spec_jump_last(self) -> Navigator {
        Navigator { current_pane: self.current_pane.spec_jump_to_end(), ..self }
    }
}

/// What `enter_selected` leaves behind when a directory named `nm` was
/// selected: the current directory gained that component, the parent pane
/// now lists the directory just left with the marker on `nm`, the current
/// pane lists the entered directory from its first entry, and the preview
/// selection is cleared.
pub open spec fn entered(pre: Navigator, post: Navigator, fs: FsSnapshot, nm: Seq<char>) -> bool {
    &&& post.cwd_model() == pre.cwd_model().push(nm)
    &&& post.mode == pre.mode
    &&& post.opts == pre.opts
    &&& post.parent_pane_ok(fs)
    &&& post.current_pane_ok(fs)
    &&& (post.current_pane.cursor matches Some(i) ==> i == 0)
    &&& (post.current_pane.cursor is Some <==> post.current_pane.items@.len() > 0)
    &&& post.preview_pane.items == pre.preview_pane.items
    &&& post.preview_pane.cursor is None
}

/// What `leave` leaves behind away from the root: the last component is
/// gone, the parent pane lists the grandparent with the marker on the new
/// last component, the current pane lists the parent with its cursor on the
/// entry just left, and the preview is refreshed.
pub open spec fn left_parent(pre: Navigator, post: Navigator, fs: FsSnapshot) -> bool {
    &&& post.cwd_model() == pre.cwd_model().drop_last()
    &&& post.mode == pre.mode
    &&& post.opts == pre.opts
    &&& post.parent_pane_ok(fs)
    &&& post.current_pane_ok(fs)
    &&& marks_name(post.current_pane, pre.cwd_model().last())
    &&& post.preview_pane_ok(fs)
}

/// What `move_selection` leaves behind: only the current-pane cursor and the
/// preview pane change; the cursor lands `delta` clamped steps away.
pub open spec fn moved_by(pre: Navigator, post: Navigator, fs: FsSnapshot, delta: int) -> bool {
    &&& post.cwd == pre.cwd
    &&& post.parent_pane == pre.parent_pane
    &&& post.mode == pre.mode
    &&& post.opts == pre.opts
    &&& post.current_pane.items == pre.current_pane.items
    &&& (delta >= 0 ==> post.current_pane.cursor == moved_toward_end(
        pre.current_pane.spec_len(),
        pre.current_pane.cursor,
        delta,
    ))
    &&& (delta < 0 ==> post.current_pane.cursor == moved_toward_start(
        pre.current_pane.spec_len(),
        pre.current_pane.cursor,
        -delta,
    ))
    &&& post.preview_pane_ok(fs)
}

/// What `jump_first` leaves behind: only the current-pane cursor changes,
/// landing on the first entry; in particular the preview pane stays as it
/// was.
pub open spec fn jumped_first(pre: Navigator, post: Navigator) -> bool {
    &&& post.cwd == pre.cwd
    &&& post.parent_pane == pre.parent_pane
    &&& post.preview_pane == pre.preview_pane
    &&& post.mode == pre.mode
    &&& post.opts == pre.opts
    &&& post.current_pane.items == pre.current_pane.items
    &&& post.current_pane.cursor == jumped_to_start(
        pre.current_pane.spec_len(),
        pre.current_pane.cursor,
    )
}

/// `entered`, followed by a preview refresh: the preview pane lists the
/// directory now selected in the freshly entered directory.
pub open spec fn entered_and_previewed(
    pre: Navigator,
    post: Navigator,
    fs: FsSnapshot,
    nm: Seq<char>,
) -> bool {
    &&& post.cwd_model() == pre.cwd_model().push(nm)
    &&& post.mode == pre.mode
    &&& post.opts == pre.opts
    &&& post.parent_pane_ok(fs)
    &&& post.current_pane_ok(fs)
    &&& (post.current_pane.cursor matches Some(i) ==> i == 0)
    &&& (post.current_pane.cursor is Some <==> post.current_pane.items@.len() > 0)
    &&& post.preview_pane_ok(fs)
}

/// Finds the first entry with the given display name.
fn position_of_name(v: &Vec<Entry>, name: &String) -> (r: Option<usize>)
    ensures
        match r {
            Some(i) => i < v@.len() && models(v@)[i as int].name == name@,
            None => forall|k: int| 0 <= k < v@.len() ==> models(v@)[k].name != name@,
        },
{
    let mut i: usize = 0;
    while i < v.len()
        invariant
            i <= v@.len(),
            forall|k: int| 0 <= k < i ==> models(v@)[k].name != name@,
        decreases v@.len() - i,
    {
        if v[i].name.eq(name) {
            return Some(i);
        }
        i = i + 1;
    }
    None
}

/// An owned copy of a path.
fn clone_path(p: &Vec<String>) -> (r: Vec<String>)
    ensures
        r@ == p@,
{
    let mut r: Vec<String> = Vec::new();
    let mut i: usize = 0;
    while i < p.len()
        invariant
            i <= p@.len(),
            r@ == p@.take(i as int),
        decreases p@.len() - i,
    {
        r.push(p[i].clone());
        proof {
            assert(r@ =~= p@.take(i as int + 1));
        }
        i = i + 1;
    }
    proof {
        assert(p@.take(p@.len() as int) =~= p@);
    }
    r
}

/// The parent of a path: the path without its last component.
fn parent_of(p: &Vec<String>) -> (r: Vec<String>)
    requires
        p@.len() > 0,
    ensures
        r@ == p@.drop_last(),
        path_model(r@) == path_model(p@).drop_last(),
{
    let mut r = clone_path(p);
    let _last = r.pop();
    proof {
        assert(r@ =~= p@.drop_last());
        assert(path_model(r@) =~= path_model(p@).drop_last());
    }
    r
}

/// The path of a child of `p` named `name`.
fn child_path(p: &Vec<String>, name: &String) -> (r: Vec<String>)
    ensures
        path_model(r@) == path_model(p@).push(name@),
{
    let mut r = clone_path(p);
    r.push(name.clone());
    proof {
        assert(path_model(r@) =~= path_model(p@).push(name@));
    }
    r
}

impl Navigator {
    /// Builds the navigator from a snapshot, an initial current directory,
    /// and the display options: the three panes are consistent with the
    /// snapshot, the current pane starts at its first entry, and the mode is
    /// `Normal`.
    pub fn new(fs: &FsSnapshot, cwd: Vec<String>, opts: DisplayOptions) -> (r: Navigator)
        ensures
            r.wf(),
            r.cwd == cwd,
            r.mode == Mode::Normal,
            r.opts == opts,
            r.consistent_with(*fs),
            r.current_pane.cursor matches Some(i) ==> i == 0,
            r.current_pane.cursor is Some <==> r.current_pane.items@.len() > 0,
    {
        let show_hidden = opts.show_hidden;
        let parent_items: Vec<Entry> = if cwd.len() > 0 {
            let pp = parent_of(&cwd);
            list_dir(fs, &pp, show_hidden)
        } else {
            let e: Vec<Entry> = Vec::new();
            proof {
                lemma_empty_is_listing(show_hidden);
                assert(models(e@) =~= Seq::<EntryModel>::empty());
            }
            e
        };
        let parent_cursor = if cwd.len() > 0 {
            position_of_name(&parent_items, &cwd[cwd.len() - 1])
        } else {
            None
        };
        let current_items = list_dir(fs, &cwd, show_hidden);
        let current_cursor: Option<usize> = if current_items.len() > 0 {
            Some(0)
        } else {
            None
        };
        let mut r = Navigator {
            cwd,
            parent_pane: SelectableList::with_items(parent_items, parent_cursor),
            current_pane: SelectableList::with_items(current_items, current_cursor),
            preview_pane: SelectableList::with_items(Vec::new(), None),
            mode: Mode::Normal,
            opts,
        };
        proof {
            if r.cwd@.len() > 0 {
                assert(r.cwd_model().last() == r.cwd@[r.cwd@.len() - 1]@);
            }
        }
        r.refresh_preview(fs);
        r
    }

    /// Re-lists the preview pane from whatever is selected in the current
    /// pane; when nothing is selected, or the selection is not a directory,
    /// the preview becomes empty. Nothing else changes.
    pub fn refresh_preview(&mut self, fs: &FsSnapshot)
        requires
            old(self).wf(),
        ensures
            final(self).wf(),
            final(self).cwd == old(self).cwd,
            final(self).parent_pane == old(self).parent_pane,
            final(self).current_pane == old(self).current_pane,
            final(self).mode == old(self).mode,
            final(self).opts == old(self).opts,
            final(self).preview_pane_ok(*fs),
    {
        let show_hidden = self.opts.show_hidden;
        let target: Option<Vec<String>> = match self.current_pane.selected() {
            Some(e) => match e.kind {
                EntryKind::Directory => Some(child_path(&self.cwd, &e.name)),
                EntryKind::File => None,
            },
            None => None,
        };
        let items: Vec<Entry> = match target {
            Some(p) => list_dir(fs, &p, show_hidden),
            None => {
                let e: Vec<Entry> = Vec::new();
                proof {
                    lemma_empty_is_listing(show_hidden);
                    assert(models(e@) =~= Seq::<EntryModel>::empty());
                }
                e
            },
        };
        self.preview_pane.replace(items, None);
    }

    /// Advances (positive `delta`) or retreats (negative `delta`) the
    /// current-pane cursor by `|delta|` composed single steps, clamped at the
    /// ends, then recomputes the preview pane from the new selection.
    pub fn move_selection(&mut self, fs: &FsSnapshot, delta: i32)
        requires
            old(self).wf(),
        ensures
            final(self).wf(),
            final(self).cwd == old(self).cwd,
            final(self).parent_pane == old(self).parent_pane,
            final(self).mode == old(self).mode,
            final(self).opts == old(self).opts,
            final(self).current_pane.items == old(self).current_pane.items,
            delta >= 0 ==> final(self).current_pane.cursor == moved_toward_end(
                old(self).current_pane.spec_len(),
                old(self).current_pane.cursor,
                delta as int,
            ),
            delta < 0 ==> final(self).current_pane.cursor == moved_toward_start(
                old(self).current_pane.spec_len(),
                old(self).current_pane.cursor,
                -(delta as int),
            ),
            final(self).preview_pane_ok(*fs),
    {
        if delta >= 0 {
            self.current_pane.advance_by(delta as usize);
        } else {
            let steps = -(delta as i64);
            self.current_pane.retreat_by(steps as usize);
        }
        self.refresh_preview(fs);
    }

    /// Moves the current-pane cursor to the first entry. The preview pane is
    /// deliberately not refreshed here, mirroring the observed asymmetry with
    /// `move_selection`; a caller that wants the preview to follow calls
    /// `refresh_preview`.
    pub fn jump_first(&mut self)
        requires
            old(self).wf(),
        ensures
            final(self).wf(),
            final(self).cwd == old(self).cwd,
            final(self).parent_pane == old(self).parent_pane,
            final(self).preview_pane == old(self).preview_pane,
            final(self).mode == old(self).mode,
            final(self).opts == old(self).opts,
            final(self).current_pane.items == old(self).current_pane.items,
            final(self).current_pane.cursor == jumped_to_start(
                old(self).current_pane.spec_len(),
                old(self).current_pane.cursor,
            ),
    {
        self.current_pane.jump_to_start();
    }

    /// Moves the current-pane cursor to the last entry. As with
    /// `jump_first`, the preview pane is left as it is.
    pub fn jump_last(&mut self)
        requires
            old(self).wf(),
        ensures
            final(self).wf(),
            *final(self) == old(self).spec_jump_last(),
    {
        self.current_pane.jump_to_end();
    }

    /// If the current-pane selection is a directory, makes it the current
    /// directory: the parent pane re-derives from the directory just left
    /// with the marker on the entered entry, the current pane lists the
    /// entered directory with the cursor on its first entry, and the preview
    /// selection is cleared for a subsequent refresh. No-op when the
    /// selection is absent or a file.
    pub fn enter_selected(&mut self, fs: &FsSnapshot)
        requires
            old(self).wf(),
        ensures
            final(self).wf(),
            old(self).selected_dir_name() is None ==> *final(self) == *old(self),
            old(self).selected_dir_name() matches Some(nm) ==> entered(
                *old(self),
                *final(self),
                *fs,
                nm,
            ),
    {
        let target: Option<String> = match self.current_pane.selected() {
            Some(e) => match e.kind {
                EntryKind::Directory => Some(e.name.clone()),
                EntryKind::File => None,
            },
            None => None,
        };
        match target {
            None => {},
            Some(name) => {
                let show_hidden = self.opts.show_hidden;
                let new_cwd = child_path(&self.cwd, &name);
                let parent_items = list_dir(fs, &self.cwd, show_hidden);
                let parent_cursor = position_of_name(&parent_items, &name);
                let current_items = list_dir(fs, &new_cwd, show_hidden);
                let current_cursor: Option<usize> = if current_items.len() > 0 {
                    Some(0)
                } else {
                    None
                };
                self.parent_pane.replace(parent_items, parent_cursor);
                self.current_pane.replace(current_items, current_cursor);
                self.preview_pane.cursor = None;
                self.cwd = new_cwd;
                proof {
                    assert(self.cwd_model().drop_last() =~= path_model(old(self).cwd@));
                    assert(self.cwd_model().last() == name@);
                }
            },
        }
    }

    /// If the current directory has a parent, makes the parent current: the
    /// parent pane re-derives from the grandparent, the current pane lists
    /// the parent with its cursor on the entry corresponding to the
    /// directory just left (no selection if that entry is gone), and the
    /// preview is refreshed. No-op at the filesystem root.
    pub fn leave(&mut self, fs: &FsSnapshot)
        requires
            old(self).wf(),
        ensures
            final(self).wf(),
            old(self).cwd@.len() == 0 ==> *final(self) == *old(self),
            old(self).cwd@.len() > 0 ==> left_parent(*old(self), *final(self), *fs),
    {
        if self.cwd.len() == 0 {
            return;
        }
        let show_hidden = self.opts.show_hidden;
        let leaving = self.cwd[self.cwd.len() - 1].clone();
        let new_cwd = parent_of(&self.cwd);
        let parent_items: Vec<Entry> = if new_cwd.len() > 0 {
            let gp = parent_of(&new_cwd);
            list_dir(fs, &gp, show_hidden)
        } else {
            let e: Vec<Entry> = Vec::new();
            proof {
                lemma_empty_is_listing(show_hidden);
                assert(models(e@) =~= Seq::<EntryModel>::empty());
            }
            e
        };
        let parent_cursor = if new_cwd.len() > 0 {
            position_of_name(&parent_items, &new_cwd[new_cwd.len() - 1])
        } else {
            None
        };
        let current_items = list_dir(fs, &new_cwd, show_hidden);
        let current_cursor = position_of_name(&current_items, &leaving);
        self.parent_pane.replace(parent_items, parent_cursor);
        self.current_pane.replace(current_items, current_cursor);
        self.cwd = new_cwd;
        proof {
            assert(old(self).cwd_model().last() == leaving@);
            if self.cwd@.len() > 0 {
                assert(self.cwd_model().last() == self.cwd@[self.cwd@.len() - 1]@);
            }
        }
        self.refresh_preview(fs);
    }

    /// The path of the current-pane selection when it is a directory,
    /// signalling that navigation is complete; nothing when the selection is
    /// absent or a file, which is not a valid terminal action.
    pub fn commit_selection(&self) -> (r: Option<Vec<String>>)
        ensures
            self.selected_dir_name() is None ==> r is None,
            self.selected_dir_name() matches Some(nm) ==> (r matches Some(p) && path_model(p@)
                == self.cwd_model().push(nm)),
    {
        match self.current_pane.selected() {
            Some(e) => match e.kind {
                EntryKind::Directory => Some(child_path(&self.cwd, &e.name)),
                EntryKind::File => None,
            },
            None => None,
        }
    }
}

/// The round trip: entering the selected directory and immediately leaving
/// it restores the current directory, and puts the current-pane cursor back
/// on the directory that was entered — provided the panes were consistent
/// with the snapshot and the snapshot did not change in between.
pub proof fn lemma_enter_leave_round_trip(
    pre: Navigator,
    mid: Navigator,
    post: Navigator,
    fs: FsSnapshot,
    nm: Seq<char>,
)
    requires
        pre.current_pane_ok(fs),
        pre.selected_dir_name() == Some(nm),
        entered(pre, mid, fs, nm),
        left_parent(mid, post, fs),
    ensures
        post.cwd_model() == pre.cwd_model(),
        post.current_pane.cursor matches Some(i) && i < post.current_pane.items@.len()
            && models(post.current_pane.items@)[i as int].name == nm,
{
    broadcast use vstd::seq_lib::group_to_multiset_ensures;

    assert(mid.cwd_model().drop_last() =~= pre.cwd_model());
    assert(mid.cwd_model().last() == nm);

    let e = pre.current_pane.selected_model().unwrap();
    let pre_items = models(pre.current_pane.items@);
    let post_items = models(post.current_pane.items@);
    let i = pre.current_pane.cursor.unwrap();
    assert(pre_items[i as int] == e);
    assert(pre_items.contains(e));
    assert(pre_items.to_multiset().count(e) > 0);
    assert(post_items.to_multiset() == pre_items.to_multiset());
    assert(post_items.contains(e));
    let k = choose|k: int| 0 <= k < post_items.len() && post_items[k] == e;
    assert(post_items[k].name == nm);
    assert(marks_name(post.current_pane, nm));
}

/// Jumping to the last entry twice in a row yields the same navigator as
/// jumping once.
pub proof fn lemma_jump_last_idempotent(n: Navigator)
    ensures
        n.spec_jump_last().spec_jump_last() == n.spec_jump_last(),
{
    crate::selectable::lemma_jump_to_end_idempotent(n.current_pane);
}

/// The empty sequence is a listing of the empty raw children.
proof fn lemma_empty_is_listing(show_hidden: bool)
    ensures
        is_listing(Seq::<EntryModel>::empty(), Seq::<EntryModel>::empty(), show_hidden),
{
    reveal(Seq::filter);
    assert(Seq::<EntryModel>::empty().filter(crate::listing::keep_pred(show_hidden))
        =~= Seq::<EntryModel>::empty());
}

} // verus!
