//! The share registry: the files offered on the network, and the share pane's
//! own cursor over them.
use vstd::prelude::*;
use crate::entry::{
    FileEntry, insertion_point, is_sorted, lemma_insert_sorted, paths_of, precedes,
};
use crate::selection::{selection_fits, step_back, step_forward, wrap_next, wrap_prev};

verus! {

/// The shared files, kept in listing order.
pub struct ShareSet {
    pub entries: Vec<FileEntry>,
}

/// `p` is where `e` goes into `s`: after every entry that is not listed
/// after it, before every entry that is.
pub open spec fn placed_at(s: Seq<FileEntry>, e: FileEntry, p: int) -> bool {
    &&& 0 <= p <= s.len()
    &&& forall|k: int| 0 <= k < p ==> !precedes(e, #[trigger] s[k])
    &&& forall|k: int| p <= k < s.len() ==> precedes(e, #[trigger] s[k])
}

/// `t` is `s` with `e` put in its place.
pub open spec fn inserted_in_order(s: Seq<FileEntry>, e: FileEntry, t: Seq<FileEntry>) -> bool {
    exists|p: int| placed_at(s, e, p) && t == s.insert(p, e)
}

/// Adding `e` to `s` changes it: `e` is a file whose path is not yet shared.
pub open spec fn admits(s: Seq<FileEntry>, e: FileEntry) -> bool {
    !e.is_dir && !paths_of(s).contains(e.path@)
}

/// A share list without repeated paths and without directories, in listing
/// order.
pub open spec fn share_list_ok(s: Seq<FileEntry>) -> bool {
    &&& is_sorted(s)
    &&& paths_of(s).no_duplicates()
    &&& forall|k: int| 0 <= k < s.len() ==> !(#[trigger] s[k]).is_dir
}

/// The selection after the item at `i` leaves a list, `len` items remaining:
/// the same index, or the new last one where `i` was last, or none where the
/// list is empty.
pub open spec fn selection_after_removal(i: nat, len: nat) -> Option<usize> {
    if len == 0 {
        Option::None
    } else if i >= len {
        Option::Some((len - 1) as usize)
    } else {
        Option::Some(i as usize)
    }
}

impl ShareSet {
    pub open spec fn wf(&self) -> bool {
        share_list_ok(self.entries@)
    }

    /// An empty share set.
    pub fn new() -> (r: ShareSet)
        ensures
            r.wf(),
            r.entries@.len() == 0,
    {
        ShareSet { entries: Vec::new() }
    }

    /// Whether `path` is shared.
    pub fn contains(&self, path: &String) -> (r: bool)
        ensures
            r == paths_of(self.entries@).contains(path@),
    {
        let mut k: usize = 0;
        while k < self.entries.len()
            invariant
                k <= self.entries@.len(),
                forall|j: int| 0 <= j < k ==> self.entries@[j].path@ != path@,
            decreases self.entries@.len() - k,
        {
            if self.entries[k].path == *path {
                assert(paths_of(self.entries@)[k as int] == path@);
                return true;
            }
            k = k + 1;
        }
        proof {
            if paths_of(self.entries@).contains(path@) {
                let j = choose|j: int| 0 <= j < self.entries@.len() && paths_of(self.entries@)[j] == path@;
                assert(self.entries@[j].path@ == path@);
            }
        }
        false
    }

    /// Number of shared files.
    pub fn len(&self) -> (r: usize)
        ensures
            r == self.entries@.len(),
    {
        self.entries.len()
    }
}

proof fn lemma_insert_keeps_list_ok(s: Seq<FileEntry>, p: int, e: FileEntry)
    requires
        share_list_ok(s),
        placed_at(s, e, p),
        admits(s, e),
    ensures
        share_list_ok(s.insert(p, e)),
{
    lemma_insert_sorted(s, p, e);
    let t = s.insert(p, e);
    assert(paths_of(t) =~= paths_of(s).insert(p, e.path@));
    assert forall|i: int, j: int| 0 <= i < j < t.len() implies paths_of(t)[i] != paths_of(t)[j] by {
        if i == p {
            assert(paths_of(s)[j - 1] == paths_of(t)[j]);
        } else if j == p {
            assert(paths_of(s)[i] == paths_of(t)[i]);
        }
    }
}

proof fn lemma_remove_keeps_list_ok(s: Seq<FileEntry>, i: int)
    requires
        share_list_ok(s),
        0 <= i < s.len(),
    ensures
        share_list_ok(s.remove(i)),
{
    let t = s.remove(i);
    assert(paths_of(t) =~= paths_of(s).remove(i));
    assert forall|a: int, b: int| 0 <= a < b < t.len() implies !precedes(#[trigger] t[b], #[trigger] t[a]) by {
        let a0 = if a < i { a } else { a + 1 };
        let b0 = if b < i { b } else { b + 1 };
        assert(t[a] == s[a0] && t[b] == s[b0]);
    }
    assert forall|a: int, b: int| 0 <= a < b < t.len() implies paths_of(t)[a] != paths_of(t)[b] by {
        let a0 = if a < i { a } else { a + 1 };
        let b0 = if b < i { b } else { b + 1 };
        assert(paths_of(t)[a] == paths_of(s)[a0] && paths_of(t)[b] == paths_of(s)[b0]);
    }
    assert forall|k: int| 0 <= k < t.len() implies !(#[trigger] t[k]).is_dir by {
        let k0 = if k < i { k } else { k + 1 };
        assert(t[k] == s[k0]);
    }
}

/// The share pane's cursor, independent of the directory panes.
pub struct ShareInfo {
    pub selected: Option<usize>,
}

impl ShareInfo {
    /// A cursor on the first shared file, or on nothing where none is shared.
    pub fn new(shares: &ShareSet) -> (r: ShareInfo)
        ensures
            r.selected == (if shares.entries@.len() == 0 {
                Option::<usize>::None
            } else {
                Option::Some(0usize)
            }),
    {
        if shares.entries.len() == 0 {
            ShareInfo { selected: None }
        } else {
            ShareInfo { selected: Some(0) }
        }
    }

    /// Shares `entry`. Nothing changes where it is a directory or its path is
    /// already shared; otherwise it goes into its place in listing order and
    /// the result is true: a change to announce.
    pub fn add(&mut self, shares: &mut ShareSet, entry: FileEntry) -> (changed: bool)
        requires
            old(shares).wf(),
            selection_fits(old(self).selected, old(shares).entries@.len()),
        ensures
            final(shares).wf(),
            selection_fits(final(self).selected, final(shares).entries@.len()),
            changed == admits(old(shares).entries@, entry),
            changed ==> inserted_in_order(old(shares).entries@, entry, final(shares).entries@),
            !changed ==> final(shares).entries@ == old(shares).entries@,
            final(self).selected == (if old(self).selected is None && changed {
                Option::Some(0usize)
            } else {
                old(self).selected
            }),
    {
        if entry.is_dir || shares.contains(&entry.path) {
            return false;
        }
        let p = insertion_point(&shares.entries, &entry);
        proof {
            lemma_insert_keeps_list_ok(shares.entries@, p as int, entry);
            assert(placed_at(shares.entries@, entry, p as int));
        }
        let ghost before = shares.entries@;
        shares.entries.insert(p, entry);
        assert(inserted_in_order(before, entry, shares.entries@));
        if self.selected.is_none() {
            self.selected = Some(0);
        }
        true
    }

    /// Unshares the selected file. Where the selection was the last item it
    /// moves to the new last one; where nothing is left it becomes none. The
    /// result is whether a file was removed: a change to announce.
    pub fn remove(&mut self, shares: &mut ShareSet) -> (changed: bool)
        requires
            old(shares).wf(),
            selection_fits(old(self).selected, old(shares).entries@.len()),
        ensures
            final(shares).wf(),
            selection_fits(final(self).selected, final(shares).entries@.len()),
            changed == old(self).selected is Some,
            match old(self).selected {
                Option::None => final(shares).entries@ == old(shares).entries@ && final(self).selected
                    is None,
                Option::Some(i) => final(shares).entries@ == old(shares).entries@.remove(i as int)
                    && final(self).selected == selection_after_removal(
                    i as nat,
                    final(shares).entries@.len(),
                ),
            },
    {
        match self.selected {
            None => false,
            Some(i) => {
                proof {
                    lemma_remove_keeps_list_ok(shares.entries@, i as int);
                }
                shares.entries.remove(i);
                let len = shares.entries.len();
                if len == 0 {
                    self.selected = None;
                } else if i >= len {
                    self.selected = Some(len - 1);
                }
                true
            },
        }
    }

    /// Moves the cursor up one file, from the first to the last.
    pub fn prev(&mut self, shares: &ShareSet)
        requires
            selection_fits(old(self).selected, shares.entries@.len()),
        ensures
            selection_fits(final(self).selected, shares.entries@.len()),
            final(self).selected == match old(self).selected {
                Option::None => Option::None,
                Option::Some(i) => Option::Some(
                    wrap_prev(i as nat, shares.entries@.len()) as usize,
                ),
            },
    {
        if let Some(i) = self.selected {
            self.selected = Some(step_back(i, shares.entries.len()));
        }
    }

    /// Moves the cursor down one file, from the last to the first.
    pub fn next(&mut self, shares: &ShareSet)
        requires
            selection_fits(old(self).selected, shares.entries@.len()),
        ensures
            selection_fits(final(self).selected, shares.entries@.len()),
            final(self).selected == match old(self).selected {
                Option::None => Option::None,
                Option::Some(i) => Option::Some(
                    wrap_next(i as nat, shares.entries@.len()) as usize,
                ),
            },
    {
        if let Some(i) = self.selected {
            self.selected = Some(step_forward(i, shares.entries.len()));
        }
    }

    /// Unshares every file; the cursor selects nothing.
    pub fn clear(&mut self, shares: &mut ShareSet)
        ensures
            final(shares).wf(),
            final(shares).entries@.len() == 0,
            final(self).selected is None,
    {
        shares.entries.clear();
        self.selected = None;
    }
}

/// Adding the same file twice in a row leaves the share list as the first
/// addition left it, and the second addition announces no change.
pub proof fn lemma_add_idempotent(
    s0: Seq<FileEntry>,
    e: FileEntry,
    s1: Seq<FileEntry>,
    changed1: bool,
    s2: Seq<FileEntry>,
    changed2: bool,
)
    requires
        share_list_ok(s0),
        changed1 == admits(s0, e),
        changed1 ==> inserted_in_order(s0, e, s1),
        !changed1 ==> s1 == s0,
        changed2 == admits(s1, e),
        changed2 ==> inserted_in_order(s1, e, s2),
        !changed2 ==> s2 == s1,
    ensures
        s2 == s1,
        !changed2,
{
    if changed1 {
        let p = choose|p: int| placed_at(s0, e, p) && s1 == s0.insert(p, e);
        assert(paths_of(s1)[p] == e.path@);
    }
}

/// A path becomes shared only by being added: after an addition each shared
/// path was shared before or is the added entry's, and after a removal or a
/// clear each shared path was shared before.
pub proof fn lemma_only_added_paths_shared(
    s0: Seq<FileEntry>,
    e: FileEntry,
    added: Seq<FileEntry>,
    i: int,
    removed: Seq<FileEntry>,
    p: Seq<char>,
)
    requires
        inserted_in_order(s0, e, added) || added == s0,
        (0 <= i < s0.len() && removed == s0.remove(i)) || removed == s0 || removed.len() == 0,
    ensures
        paths_of(added).contains(p) ==> paths_of(s0).contains(p) || p == e.path@,
        paths_of(removed).contains(p) ==> paths_of(s0).contains(p),
{
    if paths_of(added).contains(p) && added != s0 {
        let q = choose|q: int| placed_at(s0, e, q) && added == s0.insert(q, e);
        let k = choose|k: int| 0 <= k < paths_of(added).len() && paths_of(added)[k] == p;
        if k < q {
            assert(paths_of(s0)[k] == p);
        } else if k > q {
            assert(paths_of(s0)[k - 1] == p);
        }
    }
    if paths_of(removed).contains(p) && removed != s0 && removed.len() != 0 {
        let k = choose|k: int| 0 <= k < paths_of(removed).len() && paths_of(removed)[k] == p;
        if k < i {
            assert(paths_of(s0)[k] == p);
        } else {
            assert(paths_of(s0)[k + 1] == p);
        }
    }
}

} // verus!
