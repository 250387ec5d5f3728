use vstd::prelude::*;
use crate::entry::{Entry, EntryModel};

verus! {

/// A cursor over an ordered sequence of entries: the sequence plus an
/// optional selected index. The cursor is owned exclusively by the list; no
/// other component indexes into the sequence directly.
pub struct SelectableList {
    pub items: Vec<Entry>,
    pub cursor: Option<usize>,
}

/// One cursor step toward the end: clamps at the last index, treats an
/// absent cursor as position zero, and leaves an empty list untouched.
pub open spec fn stepped_toward_end(len: int, c: Option<usize>) -> Option<usize> {
    if len <= 0 {
        c
    } else {
        let i = match c {
            Some(i) => i as int,
            None => 0,
        };
        if i + 1 < len {
            Some((i + 1) as usize)
        } else {
            Some((len - 1) as usize)
        }
    }
}

/// One cursor step toward the start: clamps at index zero, treats an absent
/// cursor as position zero, and leaves an empty list untouched.
pub open spec fn stepped_toward_start(len: int, c: Option<usize>) -> Option<usize> {
    if len <= 0 {
        c
    } else {
        let i = match c {
            Some(i) => i as int,
            None => 0,
        };
        if i > 0 {
            Some((i - 1) as usize)
        } else {
            Some(0usize)
        }
    }
}

/// `n` cursor steps toward the end, in closed form.
pub open spec fn moved_toward_end(len: int, c: Option<usize>, n: int) -> Option<usize> {
    if len <= 0 || n <= 0 {
        c
    } else {
        let i = match c {
            Some(i) => i as int,
            None => 0,
        };
        if i + n < len {
            Some((i + n) as usize)
        } else {
            Some((len - 1) as usize)
        }
    }
}

/// `n` cursor steps toward the start, in closed form.
pub open spec fn moved_toward_start(len: int, c: Option<usize>, n: int) -> Option<usize> {
    if len <= 0 || n <= 0 {
        c
    } else {
        let i = match c {
            Some(i) => i as int,
            None => 0,
        };
        if i - n > 0 {
            Some((i - n) as usize)
        } else {
            Some(0usize)
        }
    }
}

/// The cursor set to the first index, on a non-empty list.
pub open spec fn jumped_to_start(len: int, c: Option<usize>) -> Option<usize> {
    if len <= 0 {
        c
    } else {
        Some(0usize)
    }
}

/// The cursor set to the last index, on a non-empty list.
pub open spec fn jumped_to_end(len: int, c: Option<usize>) -> Option<usize> {
    if len <= 0 {
        c
    } else {
        Some((len - 1) as usize)
    }
}

impl SelectableList {
    /// The index-bounds invariant: a present cursor points into the
    /// sequence; on an empty sequence the cursor is therefore absent.
    pub open spec fn wf(self) -> bool {
        self.cursor matches Some(i) ==> i < self.items@.len()
    }

    /// The number of entries.
    pub open spec fn spec_len(self) -> int {
        self.items@.len() as int
    }

    /// The entry value at the cursor, if any.
    pub open spec fn selected_model(self) -> Option<EntryModel> {
        match self.cursor {
            Some(i) => if i < self.items@.len() {
                Some(self.items@[i as int]@)
            } else {
                None
            },
            None => None,
        }
    }

    /// This list with its cursor set to the last index.
    pub open spec fn spec_jump_to_end(self) -> SelectableList {
        SelectableList { items: self.items, cursor: jumped_to_end(self.spec_len(), self.cursor) }
    }

    /// Builds a list from a sequence and a cursor that respects its bounds.
    pub fn with_items(items: Vec<Entry>, cursor: Option<usize>) -> (r: SelectableList)
        requires
            cursor matches Some(i) ==> i < items@.len(),
        ensures
            r.items == items,
            r.cursor == cursor,
            r.wf(),
    {
        SelectableList { items, cursor }
    }

    /// Atomically swaps both the sequence and the cursor; the caller never
    /// observes a pair that violates the index-bounds invariant.
    pub fn replace(&mut self, items: Vec<Entry>, cursor: Option<usize>)
        requires
            cursor matches Some(i) ==> i < items@.len(),
        ensures
            final(self).items == items,
            final(self).cursor == cursor,
            final(self).wf(),
    {
        self.items = items;
        self.cursor = cursor;
    }

    /// The entry at the cursor, or nothing if the cursor is unset.
    pub fn selected(&self) -> (r: Option<&Entry>)
        ensures
            match r {
                Some(e) => self.selected_model() == Some(e@),
                None => self.selected_model() is None,
            },
    {
        match self.cursor {
            Some(i) => if i < self.items.len() {
                Some(&self.items[i])
            } else {
                None
            },
            None => None,
        }
    }

    /// Moves the cursor one position toward the end, clamped at the last
    /// index; no-op on an empty sequence. Afterwards the cursor is present
    /// exactly when the sequence is non-empty.
    pub fn advance(&mut self)
        requires
            old(self).wf(),
        ensures
            final(self).wf(),
            final(self).items == old(self).items,
            final(self).cursor == stepped_toward_end(old(self).spec_len(), old(self).cursor),
            final(self).cursor is Some <==> old(self).spec_len() > 0,
    {
        if self.items.len() > 0 {
            let i = match self.cursor {
                Some(i) => i,
                None => 0,
            };
            if i + 1 < self.items.len() {
                self.cursor = Some(i + 1);
            } else {
                self.cursor = Some(self.items.len() - 1);
            }
        }
    }

    /// Moves the cursor one position toward the start, clamped at index
    /// zero; no-op on an empty sequence. Afterwards the cursor is present
    /// exactly when the sequence is non-empty.
    pub fn retreat(&mut self)
        requires
            old(self).wf(),
        ensures
            final(self).wf(),
            final(self).items == old(self).items,
            final(self).cursor == stepped_toward_start(old(self).spec_len(), old(self).cursor),
            final(self).cursor is Some <==> old(self).spec_len() > 0,
    {
        if self.items.len() > 0 {
            let i = match self.cursor {
                Some(i) => i,
                None => 0,
            };
            if i > 0 {
                self.cursor = Some(i - 1);
            } else {
                self.cursor = Some(0);
            }
        }
    }

    /// Composes `n` single steps toward the end; the result is the closed
    /// form: the start position moved by `n`, clamped at the last index.
    pub fn advance_by(&mut self, n: usize)
        requires
            old(self).wf(),
        ensures
            final(self).wf(),
            final(self).items == old(self).items,
            final(self).cursor == moved_toward_end(old(self).spec_len(), old(self).cursor, n as int),
    {
        let item_count = self.items.len();
        let mut k: usize = 0;
        while k < n
            invariant
                k <= n,
                self.wf(),
                self.items == old(self).items,
                old(self).spec_len() == item_count as int,
                self.cursor == moved_toward_end(old(self).spec_len(), old(self).cursor, k as int),
            decreases n - k,
        {
            let ghost len = old(self).spec_len();
            let ghost c0 = old(self).cursor;
            let ghost prev = self.cursor;
            self.advance();
            proof {
                assert(prev == moved_toward_end(len, c0, k as int));
                if len > 0 {
                    assert(self.cursor == stepped_toward_end(len, prev));
                    assert(self.cursor == moved_toward_end(len, c0, k as int + 1));
                }
            }
            k = k + 1;
        }
    }

    /// Composes `n` single steps toward the start; the result is the closed
    /// form: the start position moved back by `n`, clamped at index zero.
    pub fn retreat_by(&mut self, n: usize)
        requires
            old(self).wf(),
        ensures
            final(self).wf(),
            final(self).items == old(self).items,
            final(self).cursor == moved_toward_start(old(self).spec_len(), old(self).cursor, n as int),
    {
        let item_count = self.items.len();
        let mut k: usize = 0;
        while k < n
            invariant
                k <= n,
                self.wf(),
                self.items == old(self).items,
                old(self).spec_len() == item_count as int,
                self.cursor == moved_toward_start(old(self).spec_len(), old(self).cursor, k as int),
            decreases n - k,
        {
            let ghost len = old(self).spec_len();
            let ghost c0 = old(self).cursor;
            let ghost prev = self.cursor;
            self.retreat();
            proof {
                assert(prev == moved_toward_start(len, c0, k as int));
                if len > 0 {
                    assert(self.cursor == stepped_toward_start(len, prev));
                    assert(self.cursor == moved_toward_start(len, c0, k as int + 1));
                }
            }
            k = k + 1;
        }
    }

    /// Sets the cursor to the first index; no-op on an empty sequence.
    pub fn jump_to_start(&mut self)
        requires
            old(self).wf(),
        ensures
            final(self).wf(),
            final(self).items == old(self).items,
            final(self).cursor == jumped_to_start(old(self).spec_len(), old(self).cursor),
    {
        if self.items.len() > 0 {
            self.cursor = Some(0);
        }
    }

    /// Sets the cursor to the last index; no-op on an empty sequence.
    pub fn jump_to_end(&mut self)
        requires
            old(self).wf(),
        ensures
            final(self).wf(),
            final(self).items == old(self).items,
            *final(self) == old(self).spec_jump_to_end(),
    {
        if self.items.len() > 0 {
            self.cursor = Some(self.items.len() - 1);
        }
    }
}

/// One cursor step in either direction keeps the cursor within bounds and
/// leaves it present exactly when the sequence is non-empty; since every
/// step establishes this shape again, it holds after any sequence of steps.
pub proof fn lemma_step_keeps_cursor_valid(len: int, c: Option<usize>)
    requires
        0 <= len <= usize::MAX,
        c matches Some(i) ==> i < len,
    ensures
        stepped_toward_end(len, c) is Some <==> len > 0,
        stepped_toward_start(len, c) is Some <==> len > 0,
        stepped_toward_end(len, c) matches Some(i) ==> i < len,
        stepped_toward_start(len, c) matches Some(i) ==> i < len,
{
}

/// Jumping to the end twice in a row yields the same list as jumping once.
pub proof fn lemma_jump_to_end_idempotent(l: SelectableList)
    ensures
        l.spec_jump_to_end().spec_jump_to_end() == l.spec_jump_to_end(),
{
}

} // verus!
