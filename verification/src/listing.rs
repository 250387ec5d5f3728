use vstd::prelude::*;
use vstd::string::StrSliceExecFns;
use crate::entry::{Entry, EntryModel, entry_le, models, chars_le};
use crate::entry::{entry_le_exec, lemma_entry_le_total, lemma_entry_le_trans};

verus! {

/// The value of a directory path: its components from the root, each a
/// sequence of characters. The empty sequence stands for the root itself.
pub open spec fn path_model(p: Seq<String>) -> Seq<Seq<char>> {
    p.map_values(|s: String| s@)
}

/// A name follows the hidden-file convention when it begins with a dot.
pub open spec fn is_hidden(name: Seq<char>) -> bool {
    name.len() > 0 && name[0] == '.'
}

/// Whether an entry is kept by the hidden-file filter.
pub open spec fn keeps(e: EntryModel, show_hidden: bool) -> bool {
    show_hidden || !is_hidden(e.name)
}

/// The hidden-file filter as a predicate value.
pub open spec fn keep_pred(show_hidden: bool) -> spec_fn(EntryModel) -> bool {
    |e: EntryModel| keeps(e, show_hidden)
}

/// A sequence of entries stands in display order: directories before files,
/// lexicographic names within each kind group.
pub open spec fn sorted(s: Seq<EntryModel>) -> bool {
    forall|i: int, j: int| 0 <= i < j < s.len() ==> entry_le(s[i], s[j])
}

/// `shown` is the display listing derived from the raw children `raw`:
/// exactly the entries that pass the hidden-file filter, in display order.
pub open spec fn is_listing(shown: Seq<EntryModel>, raw: Seq<EntryModel>, show_hidden: bool) -> bool {
    &&& sorted(shown)
    &&& shown.to_multiset() == raw.filter(keep_pred(show_hidden)).to_multiset()
}

/// The raw (unfiltered, unordered) children of one directory, keyed by its
/// absolute path. Symbolic links are never present: whoever reads the real
/// filesystem leaves them out of the snapshot altogether.
pub struct DirListing {
    pub path: Vec<String>,
    pub entries: Vec<Entry>,
}

/// A snapshot of the part of the filesystem that navigation can see: the raw
/// children of finitely many directories. A directory that is absent (missing,
/// unreadable, or raced away) lists as empty, so listing failures degrade to
/// "no entries" rather than failing the caller.
pub struct FsSnapshot {
    pub dirs: Vec<DirListing>,
}

/// The raw children that `dirs` records for `path`: those of the first
/// matching directory, or none.
pub open spec fn raw_listing_of(dirs: Seq<DirListing>, path: Seq<Seq<char>>) -> Seq<EntryModel>
    decreases dirs.len(),
{
    if dirs.len() == 0 {
        Seq::empty()
    } else if path_model(dirs[0].path@) == path {
        models(dirs[0].entries@)
    } else {
        raw_listing_of(dirs.drop_first(), path)
    }
}

impl FsSnapshot {
    /// The raw children this snapshot records for `path`.
    pub open spec fn raw_listing(self, path: Seq<Seq<char>>) -> Seq<EntryModel> {
        raw_listing_of(self.dirs@, path)
    }

    /// Finds the first recorded directory whose path equals `path`.
    fn find(&self, path: &Vec<String>) -> (r: Option<usize>)
        ensures
            match r {
                Some(i) => i < self.dirs@.len() && self.raw_listing(path_model(path@))
                    == models(self.dirs@[i as int].entries@),
                None => self.raw_listing(path_model(path@)) == Seq::<EntryModel>::empty(),
            },
    {
        let ghost p = path_model(path@);
        let mut i: usize = 0;
        proof {
            assert(self.dirs@.skip(0) =~= self.dirs@);
        }
        while i < self.dirs.len()
            invariant
                i <= self.dirs@.len(),
                raw_listing_of(self.dirs@, p) == raw_listing_of(self.dirs@.skip(i as int), p),
                p == path_model(path@),
            decreases self.dirs@.len() - i,
        {
            if path_eq(&self.dirs[i].path, path) {
                proof {
                    assert(self.dirs@.skip(i as int)[0] == self.dirs@[i as int]);
                }
                return Some(i);
            }
            proof {
                assert(self.dirs@.skip(i as int).drop_first() =~= self.dirs@.skip(i as int + 1));
                assert(self.dirs@.skip(i as int)[0] == self.dirs@[i as int]);
            }
            i = i + 1;
        }
        proof {
            assert(self.dirs@.skip(i as int) =~= Seq::<DirListing>::empty());
        }
        None
    }
}

/// Decides whether two paths denote the same directory, component by
/// component.
pub fn path_eq(a: &Vec<String>, b: &Vec<String>) -> (r: bool)
    ensures
        r == (path_model(a@) == path_model(b@)),
{
    if a.len() != b.len() {
        proof {
            assert(path_model(a@).len() == a@.len());
            assert(path_model(b@).len() == b@.len());
        }
        return false;
    }
    let mut i: usize = 0;
    while i < a.len()
        invariant
            i <= a@.len(),
            a@.len() == b@.len(),
            forall|k: int| 0 <= k < i ==> a@[k]@ == b@[k]@,
        decreases a@.len() - i,
    {
        if !a[i].eq(&b[i]) {
            assert(path_model(a@)[i as int] != path_model(b@)[i as int]);
            return false;
        }
        i = i + 1;
    }
    proof {
        assert(path_model(a@) =~= path_model(b@));
    }
    true
}

/// Decides the hidden-file filter for one entry.
fn keep_entry(e: &Entry, show_hidden: bool) -> (r: bool)
    ensures
        r == keeps(e@, show_hidden),
{
    if show_hidden {
        true
    } else {
        let n = e.name.as_str().unicode_len();
        if n == 0 {
            true
        } else {
            !(e.name.as_str().get_char(0) == '.')
        }
    }
}

/// The index at which `e` belongs in the sorted sequence `v`: every earlier
/// entry is at or before `e` in display order.
fn insert_position(v: &Vec<Entry>, e: &Entry) -> (i: usize)
    requires
        sorted(models(v@)),
    ensures
        i <= v@.len(),
        forall|k: int| 0 <= k < i ==> entry_le(models(v@)[k], e@),
        i < v@.len() ==> !entry_le(models(v@)[i as int], e@),
{
    let mut i: usize = 0;
    while i < v.len() && entry_le_exec(&v[i], e)
        invariant
            i <= v@.len(),
            forall|k: int| 0 <= k < i ==> entry_le(models(v@)[k], e@),
        decreases v@.len() - i,
    {
        i = i + 1;
    }
    i
}

/// Inserts `e` into the sorted sequence `v`, keeping it sorted.
fn insert_sorted(v: &mut Vec<Entry>, e: Entry)
    requires
        sorted(models(old(v)@)),
    ensures
        sorted(models(final(v)@)),
        models(final(v)@).to_multiset() == models(old(v)@).to_multiset().insert(e@),
{
    let i = insert_position(v, &e);
    let ghost m = models(v@);
    proof {
        if (i as int) < m.len() {
            lemma_entry_le_total(m[i as int], e@);
        }
        assert forall|k: int| i <= k < m.len() implies entry_le(e@, m[k]) by {
            if k > i {
                lemma_entry_le_trans(e@, m[i as int], m[k]);
            }
        }
    }
    v.insert(i, e);
    proof {
        assert(models(v@) =~= m.insert(i as int, e@));
        vstd::seq_lib::to_multiset_insert(m, i as int, e@);
        let n = models(v@);
        assert forall|p: int, q: int| 0 <= p < q < n.len() implies entry_le(n[p], n[q]) by {
            if p < i && q < i {
            } else if p < i && q == i {
            } else if p < i && q > i {
            } else if p == i {
            } else {
            }
        }
    }
}

/// Sorts entries into display order, keeping exactly the same entries.
fn sort_entries(v: Vec<Entry>) -> (r: Vec<Entry>)
    ensures
        sorted(models(r@)),
        models(r@).to_multiset() == models(v@).to_multiset(),
{
    broadcast use vstd::seq_lib::group_to_multiset_ensures;

    let ghost m = models(v@);
    let mut out: Vec<Entry> = Vec::new();
    let mut i: usize = 0;
    proof {
        assert(models(out@) =~= Seq::<EntryModel>::empty());
        assert(m.take(0) =~= Seq::<EntryModel>::empty());
        assert(Seq::<EntryModel>::empty().to_multiset() =~= models(out@).to_multiset());
    }
    while i < v.len()
        invariant
            i <= v@.len(),
            m == models(v@),
            sorted(models(out@)),
            models(out@).to_multiset() == m.take(i as int).to_multiset(),
        decreases v@.len() - i,
    {
        let e = v[i].duplicate();
        insert_sorted(&mut out, e);
        proof {
            assert(m.take(i as int + 1) =~= m.take(i as int).push(m[i as int]));
            vstd::seq_lib::to_multiset_build(m.take(i as int), m[i as int]);
        }
        i = i + 1;
    }
    proof {
        assert(m.take(v@.len() as int) =~= m);
    }
    out
}

/// The Directory Lister: the display listing of the directory at `path` in
/// the snapshot `fs` — its raw children put through the hidden-file filter
/// and ordered with every directory before every file, lexicographically
/// within each kind group. A directory the snapshot does not record lists
/// as empty.
pub fn list_dir(fs: &FsSnapshot, path: &Vec<String>, show_hidden: bool) -> (r: Vec<Entry>)
    ensures
        is_listing(models(r@), fs.raw_listing(path_model(path@)), show_hidden),
{
    broadcast use vstd::seq_lib::group_to_multiset_ensures;

    let ghost raw = fs.raw_listing(path_model(path@));
    let found = fs.find(path);
    match found {
        None => {
            let r: Vec<Entry> = Vec::new();
            proof {
                reveal(Seq::filter);
                assert(models(r@) =~= Seq::<EntryModel>::empty());
                assert(raw.filter(keep_pred(show_hidden)) =~= Seq::<EntryModel>::empty());
                assert(models(r@).to_multiset() =~= raw.filter(keep_pred(show_hidden)).to_multiset());
            }
            r
        },
        Some(d) => {
            let src = &fs.dirs[d].entries;
            let ghost full = models(src@);
            let mut kept: Vec<Entry> = Vec::new();
            let mut i: usize = 0;
            proof {
                reveal(Seq::filter);
                assert(full.take(0) =~= Seq::<EntryModel>::empty());
                assert(models(kept@) =~= full.take(0).filter(keep_pred(show_hidden)));
            }
            while i < src.len()
                invariant
                    i <= src@.len(),
                    full == models(src@),
                    models(kept@) == full.take(i as int).filter(keep_pred(show_hidden)),
                decreases src@.len() - i,
            {
                let ghost before = models(kept@);
                if keep_entry(&src[i], show_hidden) {
                    let e = src[i].duplicate();
                    kept.push(e);
                    proof {
                        assert(models(kept@) =~= before.push(full[i as int]));
                    }
                }
                proof {
                    reveal(Seq::filter);
                    assert(full.take(i as int + 1).drop_last() =~= full.take(i as int));
                    assert(full.take(i as int + 1).last() == full[i as int]);
                    assert(models(kept@) =~= full.take(i as int + 1).filter(keep_pred(show_hidden)));
                }
                i = i + 1;
            }
            proof {
                assert(full.take(src@.len() as int) =~= full);
            }
            sort_entries(kept)
        },
    }
}

/// A display listing is uniquely determined: two sorted sequences holding
/// the same entries are the same sequence. Together with `list_dir`'s
/// contract this pins the Lister's output down completely.
pub proof fn lemma_sorted_listing_unique(a: Seq<EntryModel>, b: Seq<EntryModel>)
    requires
        sorted(a),
        sorted(b),
        a.to_multiset() == b.to_multiset(),
    ensures
        a =~= b,
    decreases a.len(),
{
    broadcast use vstd::seq_lib::group_to_multiset_ensures;

    if a.len() == 0 {
        assert(a.len() == a.to_multiset().len());
        assert(b.len() == b.to_multiset().len());
    } else {
        assert(a.len() == a.to_multiset().len());
        assert(b.len() == b.to_multiset().len());
        assert(a.contains(a[0]));
        assert(b.to_multiset().count(a[0]) > 0);
        assert(b.contains(a[0]));
        let j = choose|j: int| 0 <= j < b.len() && b[j] == a[0];
        assert(entry_le(b[0], a[0])) by {
            if j > 0 {
                assert(entry_le(b[0], b[j]));
            } else {
                lemma_entry_le_total(b[0], a[0]);
            }
        }
        assert(b.contains(b[0]));
        assert(a.to_multiset().count(b[0]) > 0);
        assert(a.contains(b[0]));
        let i = choose|i: int| 0 <= i < a.len() && a[i] == b[0];
        assert(entry_le(a[0], b[0])) by {
            if i > 0 {
                assert(entry_le(a[0], a[i]));
            } else {
                lemma_entry_le_total(a[0], b[0]);
            }
        }
        crate::entry::lemma_entry_le_antisymmetric(a[0], b[0]);
        assert(a.drop_first() =~= a.remove(0));
        assert(b.drop_first() =~= b.remove(0));
        assert(a.drop_first().to_multiset() == a.to_multiset().remove(a[0]));
        assert(b.drop_first().to_multiset() == b.to_multiset().remove(b[0]));
        assert(sorted(a.drop_first())) by {
            assert(forall|p: int|
                0 <= p < a.drop_first().len() ==> a.drop_first()[p] == a[p + 1]);
        }
        assert(sorted(b.drop_first())) by {
            assert(forall|p: int|
                0 <= p < b.drop_first().len() ==> b.drop_first()[p] == b[p + 1]);
        }
        lemma_sorted_listing_unique(a.drop_first(), b.drop_first());
        assert forall|p: int| 0 <= p < a.len() implies a[p] == b[p] by {
            if p > 0 {
                assert(a[p] == a.drop_first()[p - 1]);
                assert(b[p] == b.drop_first()[p - 1]);
                assert(a.drop_first() =~= b.drop_first());
            }
        }
    }
}

/// The display order pinned down pairwise: in a sorted listing no file ever
/// precedes a directory, and names within one kind group stand in
/// lexicographic order.
pub proof fn lemma_display_order(s: Seq<EntryModel>, i: int, j: int)
    requires
        sorted(s),
        0 <= i < j < s.len(),
    ensures
        s[j].kind is Directory ==> s[i].kind is Directory,
        s[i].kind == s[j].kind ==> chars_le(s[i].name, s[j].name),
{
    assert(entry_le(s[i], s[j]));
}

} // verus!
