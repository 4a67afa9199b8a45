//! The directory navigator: the parent, current and child panes, and the
//! selection remembered for each visited directory.
//!
//! Listing a directory is left to the caller: each step that shows another
//! directory takes its listing as an argument, and the child pane is filled in
//! by `DirInfo::set_child` once the directory that `DirInfo::child_target`
//! names has been listed.
use vstd::prelude::*;
use crate::entry::{FileEntry, is_sorted, paths_of, sort_files};
use crate::history::{SelectedMap, recorded};
use crate::selection::{selection_fits, step_back, step_forward, wrap_next, wrap_prev};

verus! {

/// The role of a pane.
#[derive(Clone, Copy, Debug, PartialEq, Eq, Structural)]
pub enum PathType {
    Parent,
    Current,
    Child,
}

/// One directory as shown in a pane.
pub struct PathInfo {
    pub path: String,
    pub path_type: PathType,
    pub selected: Option<usize>,
    pub files: Vec<FileEntry>,
}

/// What `std::path::Path::parent` gives for a path, lossily decoded: none for
/// a root or an empty path.
pub uninterp spec fn parent_of(path: Seq<char>) -> Option<Seq<char>>;

/// Relies on `std::path::Path::parent` for the directory that holds a path.
#[verifier::external_body]
fn parent_path(path: &str) -> (r: Option<String>)
    ensures
        match r {
            Option::None => parent_of(path@) is None,
            Option::Some(p) => parent_of(path@) == Option::Some(p@),
        },
{
    std::path::Path::new(path).parent().map(|p| p.to_string_lossy().into_owned())
}

/// The directory that holds `path`, none for a root.
pub fn parent_dir(path: &String) -> (r: Option<String>)
    ensures
        match r {
            Option::None => parent_of(path@) is None,
            Option::Some(p) => parent_of(path@) == Option::Some(p@),
        },
{
    parent_path(path.as_str())
}

/// The selection with which directory `dir`, listing `len` entries, is shown:
/// the remembered index, moved onto the last entry where the listing has
/// shrunk below it; the first entry where nothing is remembered; none where
/// the listing is empty.
pub open spec fn restored(h: Map<Seq<char>, usize>, dir: Seq<char>, len: nat) -> Option<usize> {
    if len == 0 {
        Option::None
    } else {
        match recorded(h, dir) {
            Option::Some(i) => if i < len {
                Option::Some(i)
            } else {
                Option::Some((len - 1) as usize)
            },
            Option::None => Option::Some(0usize),
        }
    }
}

/// `pane` shows directory `dir` in role `role`: `listing` in listing order,
/// with the selection restored from `h`.
pub open spec fn shows(
    pane: PathInfo,
    dir: Seq<char>,
    role: PathType,
    listing: Seq<FileEntry>,
    h: Map<Seq<char>, usize>,
) -> bool {
    &&& pane.path@ == dir
    &&& pane.path_type == role
    &&& is_sorted(pane.files@)
    &&& pane.files@.to_multiset() == listing.to_multiset()
    &&& pane.files@.len() == listing.len()
    &&& pane.selected == restored(h, dir, listing.len())
}

/// The index of the last entry of `s` with path `p`, or 0 where there is none.
pub open spec fn position_of(s: Seq<FileEntry>, p: Seq<char>) -> nat
    decreases s.len(),
{
    if s.len() == 0 {
        0
    } else if s.last().path@ == p {
        (s.len() - 1) as nat
    } else {
        position_of(s.drop_last(), p)
    }
}

/// The selected entry of a pane where it is a directory.
pub open spec fn selected_dir(pane: PathInfo) -> Option<FileEntry> {
    match pane.selected {
        Option::Some(i) => if i < pane.files@.len() && pane.files@[i as int].is_dir {
            Option::Some(pane.files@[i as int])
        } else {
            Option::None
        },
        Option::None => Option::None,
    }
}

/// The panes `parent` and `current` show directory `dir` and the directory
/// holding it, from listings `parent_listing` and `listing`; `h0` is the
/// selection history before, `h1` after. The history records, for the
/// directory holding `dir`, the position of `dir` in it.
pub open spec fn built(
    h0: Map<Seq<char>, usize>,
    dir: Seq<char>,
    parent_listing: Seq<FileEntry>,
    listing: Seq<FileEntry>,
    parent: Option<PathInfo>,
    current: PathInfo,
    h1: Map<Seq<char>, usize>,
) -> bool {
    &&& shows(current, dir, PathType::Current, listing, h0)
    &&& match parent_of(dir) {
        Option::None => parent is None && h1 == h0,
        Option::Some(p) => parent is Some && h1 == h0.insert(
            p,
            position_of(parent->0.files@, dir) as usize,
        ) && shows(parent->0, p, PathType::Parent, parent_listing, h1),
    }
}

/// `s` shows directory `dir`, rebuilt from the given listings over the
/// selection history `h0`; the child pane waits for its listing.
pub open spec fn loaded(
    h0: Map<Seq<char>, usize>,
    dir: Seq<char>,
    parent_listing: Seq<FileEntry>,
    listing: Seq<FileEntry>,
    s: DirInfo,
) -> bool {
    &&& built(h0, dir, parent_listing, listing, s.parent, s.current, s.selected_map@)
    &&& s.child is None
}

impl PathInfo {
    /// A pane over directory `path`, listing `files` in listing order, with the
    /// first entry selected.
    pub fn new(path: String, path_type: PathType, files: Vec<FileEntry>) -> (r: PathInfo)
        ensures
            r.path == path,
            r.path_type == path_type,
            is_sorted(r.files@),
            r.files@.to_multiset() == files@.to_multiset(),
            r.files@.len() == files@.len(),
            r.selected == (if files@.len() == 0 {
                Option::<usize>::None
            } else {
                Option::Some(0usize)
            }),
    {
        let ghost listing = files@;
        let mut files = files;
        sort_files(&mut files);
        proof {
            broadcast use vstd::seq_lib::group_to_multiset_ensures;
            assert(files@.len() == files@.to_multiset().len());
            assert(listing.len() == listing.to_multiset().len());
        }
        let selected = if files.len() == 0 {
            None
        } else {
            Some(0)
        };
        PathInfo { path, path_type, selected, files }
    }

    /// Selects what `selected_map` remembers for this directory.
    pub fn auto_select(&mut self, selected_map: &SelectedMap)
        requires
            selected_map.wf(),
        ensures
            final(self).selected == restored(selected_map@, old(self).path@, old(self).files@.len()),
            final(self).path == old(self).path,
            final(self).path_type == old(self).path_type,
            final(self).files == old(self).files,
    {
        let len = self.files.len();
        if len == 0 {
            self.selected = None;
        } else {
            match selected_map.get(&self.path) {
                Some(i) => {
                    if i < len {
                        self.selected = Some(i);
                    } else {
                        self.selected = Some(len - 1);
                    }
                },
                None => {
                    self.selected = Some(0);
                },
            }
        }
    }
}

/// Where `path` stands in `files`: the last entry with that path, or 0.
fn position_in(files: &Vec<FileEntry>, path: &String) -> (r: usize)
    ensures
        r == position_of(files@, path@),
{
    let mut idx: usize = 0;
    let mut k: usize = 0;
    while k < files.len()
        invariant
            k <= files@.len(),
            idx == position_of(files@.subrange(0, k as int), path@),
        decreases files@.len() - k,
    {
        let ghost prefix = files@.subrange(0, k + 1);
        assert(prefix.drop_last() =~= files@.subrange(0, k as int));
        if files[k].path == *path {
            idx = k;
        }
        k = k + 1;
    }
    assert(files@.subrange(0, files@.len() as int) =~= files@);
    idx
}

/// Builds the parent and current panes around `current_dir` from the listings
/// of the directory that holds it and of itself, and records in
/// `selected_map` where `current_dir` stands in its parent.
pub fn gen_parent_current_child(
    current_dir: String,
    parent_files: Vec<FileEntry>,
    files: Vec<FileEntry>,
    selected_map: &mut SelectedMap,
) -> (r: (Option<PathInfo>, PathInfo))
    requires
        old(selected_map).wf(),
    ensures
        final(selected_map).wf(),
        built(
            old(selected_map)@,
            current_dir@,
            parent_files@,
            files@,
            r.0,
            r.1,
            final(selected_map)@,
        ),
{
    let ghost parent_listing = parent_files@;
    let mut current = PathInfo::new(current_dir, PathType::Current, files);
    current.auto_select(selected_map);
    let parent = match parent_path(current.path.as_str()) {
        Some(p) => {
            let mut info = PathInfo::new(p, PathType::Parent, parent_files);
            let idx = position_in(&info.files, &current.path);
            selected_map.insert(info.path.clone(), idx);
            info.auto_select(selected_map);
            Some(info)
        },
        None => None,
    };
    (parent, current)
}

/// The navigator: the three panes and the selection remembered for each
/// visited directory.
pub struct DirInfo {
    pub parent: Option<PathInfo>,
    pub current: PathInfo,
    pub child: Option<PathInfo>,
    pub selected_map: SelectedMap,
}

impl DirInfo {
    /// Each pane has its role and a selection that fits its listing, and a
    /// child pane shows the selected entry of the current pane, a directory.
    pub open spec fn wf(&self) -> bool {
        &&& self.selected_map.wf()
        &&& self.current.path_type == PathType::Current
        &&& selection_fits(self.current.selected, self.current.files@.len())
        &&& match self.parent {
            Option::Some(p) => p.path_type == PathType::Parent && selection_fits(
                p.selected,
                p.files@.len(),
            ),
            Option::None => true,
        }
        &&& match self.child {
            Option::Some(c) => c.path_type == PathType::Child && selection_fits(
                c.selected,
                c.files@.len(),
            ) && selected_dir(self.current) is Some && c.path@ == selected_dir(
                self.current,
            )->0.path@,
            Option::None => true,
        }
    }

    /// The navigator opened on `current_dir`, from the listings of the
    /// directory that holds it and of itself.
    pub fn new(current_dir: String, parent_files: Vec<FileEntry>, files: Vec<FileEntry>) -> (r:
        DirInfo)
        ensures
            r.wf(),
            loaded(Map::empty(), current_dir@, parent_files@, files@, r),
    {
        let mut selected_map = SelectedMap::new();
        let (parent, current) = gen_parent_current_child(
            current_dir,
            parent_files,
            files,
            &mut selected_map,
        );
        DirInfo { parent, current, child: None, selected_map }
    }

    /// Shows directory `path_buf`, from the listings of the directory that
    /// holds it and of itself; nothing changes where it is shown already.
    pub fn set_current_dir(
        &mut self,
        path_buf: String,
        parent_files: Vec<FileEntry>,
        files: Vec<FileEntry>,
    )
        requires
            old(self).wf(),
        ensures
            final(self).wf(),
            old(self).current.path@ == path_buf@ ==> *final(self) == *old(self),
            old(self).current.path@ != path_buf@ ==> loaded(
                old(self).selected_map@,
                path_buf@,
                parent_files@,
                files@,
                *final(self),
            ),
    {
        if self.current.path == path_buf {
            return ;
        }
        let (parent, current) = gen_parent_current_child(
            path_buf,
            parent_files,
            files,
            &mut self.selected_map,
        );
        self.parent = parent;
        self.current = current;
        self.child = None;
    }

    /// The directory that the parent pane shows.
    pub fn parent_target(&self) -> (r: Option<String>)
        ensures
            match r {
                Option::None => self.parent is None,
                Option::Some(p) => self.parent is Some && p@ == self.parent->0.path@,
            },
    {
        match &self.parent {
            Some(p) => Some(p.path.clone()),
            None => None,
        }
    }

    /// The selected entry of the current pane where it is a directory: the
    /// directory that the child pane shows.
    pub fn child_target(&self) -> (r: Option<String>)
        requires
            self.wf(),
        ensures
            match r {
                Option::None => selected_dir(self.current) is None,
                Option::Some(p) => selected_dir(self.current) is Some && p@ == selected_dir(
                    self.current,
                )->0.path@,
            },
    {
        match self.current.selected {
            Some(i) => {
                if self.current.files[i].is_dir {
                    Some(self.current.files[i].path.clone())
                } else {
                    None
                }
            },
            None => None,
        }
    }

    /// Moves up into the directory that the parent pane shows, from the
    /// listings of the directory that holds it and of itself. The result is
    /// whether another directory is now shown.
    pub fn set_current_to_parent(
        &mut self,
        parent_files: Vec<FileEntry>,
        files: Vec<FileEntry>,
    ) -> (moved: bool)
        requires
            old(self).wf(),
        ensures
            final(self).wf(),
            match old(self).parent {
                Option::None => !moved,
                Option::Some(p) => moved == (p.path@ != old(self).current.path@),
            },
            !moved ==> *final(self) == *old(self),
            moved ==> loaded(
                old(self).selected_map@,
                old(self).parent->0.path@,
                parent_files@,
                files@,
                *final(self),
            ),
    {
        match self.parent_target() {
            Some(target) => {
                if self.current.path == target {
                    return false;
                }
                self.set_current_dir(target, parent_files, files);
                true
            },
            None => false,
        }
    }

    /// Moves down into the selected entry where it is a directory, from the
    /// listings of the current directory and of that one. The result is
    /// whether another directory is now shown.
    pub fn set_current_to_child(
        &mut self,
        parent_files: Vec<FileEntry>,
        files: Vec<FileEntry>,
    ) -> (moved: bool)
        requires
            old(self).wf(),
        ensures
            final(self).wf(),
            match selected_dir(old(self).current) {
                Option::None => !moved,
                Option::Some(d) => moved == (d.path@ != old(self).current.path@),
            },
            !moved ==> *final(self) == *old(self),
            moved ==> loaded(
                old(self).selected_map@,
                selected_dir(old(self).current)->0.path@,
                parent_files@,
                files@,
                *final(self),
            ),
    {
        match self.child_target() {
            Some(target) => {
                if self.current.path == target {
                    return false;
                }
                self.set_current_dir(target, parent_files, files);
                true
            },
            None => false,
        }
    }

    /// Shows the selected directory in the child pane, from its listing;
    /// nothing changes where the selected entry is not a directory.
    pub fn set_child(&mut self, files: Vec<FileEntry>)
        requires
            old(self).wf(),
        ensures
            final(self).wf(),
            final(self).parent == old(self).parent,
            final(self).current == old(self).current,
            final(self).selected_map == old(self).selected_map,
            match selected_dir(old(self).current) {
                Option::None => final(self).child == old(self).child,
                Option::Some(d) => final(self).child is Some && shows(
                    final(self).child->0,
                    d.path@,
                    PathType::Child,
                    files@,
                    old(self).selected_map@,
                ),
            },
    {
        if let Some(path) = self.child_target() {
            let mut info = PathInfo::new(path, PathType::Child, files);
            info.auto_select(&self.selected_map);
            self.child = Some(info);
        }
    }

    /// Selects entry `idx` of the current pane and remembers it; the child
    /// pane waits for the listing of the new selection.
    fn set_current_list_state(&mut self, idx: usize)
        requires
            old(self).wf(),
            idx < old(self).current.files@.len(),
        ensures
            final(self).wf(),
            final(self).parent == old(self).parent,
            final(self).current.path == old(self).current.path,
            final(self).current.files == old(self).current.files,
            final(self).current.path_type == old(self).current.path_type,
            final(self).current.selected == Option::Some(idx),
            final(self).child is None,
            final(self).selected_map@ == old(self).selected_map@.insert(
                old(self).current.path@,
                idx,
            ),
    {
        self.current.selected = Some(idx);
        self.selected_map.insert(self.current.path.clone(), idx);
        self.child = None;
    }

    /// Moves the selection of the current pane up one entry, from the first to
    /// the last. On a listing of fewer than two entries nothing changes. The
    /// result is whether the selection moved.
    pub fn set_current_list_state_prev(&mut self) -> (moved: bool)
        requires
            old(self).wf(),
        ensures
            final(self).wf(),
            moved == (old(self).current.files@.len() > 1),
            !moved ==> *final(self) == *old(self),
            moved ==> self_moved_to(
                *old(self),
                *final(self),
                wrap_prev(
                    old(self).current.selected->0 as nat,
                    old(self).current.files@.len(),
                ) as usize,
            ),
    {
        let len = self.current.files.len();
        if len <= 1 {
            return false;
        }
        match self.current.selected {
            Some(i) => {
                let j = step_back(i, len);
                self.set_current_list_state(j);
                true
            },
            None => false,
        }
    }

    /// Moves the selection of the current pane down one entry, from the last
    /// to the first. On a listing of fewer than two entries nothing changes.
    /// The result is whether the selection moved.
    pub fn set_current_list_state_next(&mut self) -> (moved: bool)
        requires
            old(self).wf(),
        ensures
            final(self).wf(),
            moved == (old(self).current.files@.len() > 1),
            !moved ==> *final(self) == *old(self),
            moved ==> self_moved_to(
                *old(self),
                *final(self),
                wrap_next(
                    old(self).current.selected->0 as nat,
                    old(self).current.files@.len(),
                ) as usize,
            ),
    {
        let len = self.current.files.len();
        if len <= 1 {
            return false;
        }
        match self.current.selected {
            Some(i) => {
                let j = step_forward(i, len);
                self.set_current_list_state(j);
                true
            },
            None => false,
        }
    }

    /// A copy of the selected entry of the current pane.
    pub fn selected_entry(&self) -> (r: Option<FileEntry>)
        requires
            self.wf(),
        ensures
            match self.current.selected {
                Option::None => r is None,
                Option::Some(i) => r == Option::Some(self.current.files@[i as int]),
            },
    {
        match self.current.selected {
            Some(i) => Some(self.current.files[i].duplicate()),
            None => None,
        }
    }
}

/// `t` is `s` with entry `idx` of the current pane selected and remembered,
/// and the child pane waiting for the listing of the new selection.
pub open spec fn self_moved_to(s: DirInfo, t: DirInfo, idx: usize) -> bool {
    &&& t.parent == s.parent
    &&& t.current.path == s.current.path
    &&& t.current.files == s.current.files
    &&& t.current.selected == Option::Some(idx)
    &&& t.child is None
    &&& t.selected_map@ == s.selected_map@.insert(s.current.path@, idx)
}

proof fn lemma_position_of_unique(s: Seq<FileEntry>, i: int)
    requires
        0 <= i < s.len(),
        paths_of(s).no_duplicates(),
    ensures
        position_of(s, s[i].path@) == i,
    decreases s.len(),
{
    if i != s.len() - 1 {
        assert(paths_of(s)[i] != paths_of(s)[s.len() - 1]);
        let t = s.drop_last();
        assert(paths_of(t) =~= paths_of(s).drop_last());
        assert(t[i] == s[i]);
        lemma_position_of_unique(t, i);
    }
}

/// Going down into the selected directory and back up again restores the
/// selection held before going down, where the directory's listing, without
/// repeated paths, came back the same both times.
pub proof fn lemma_child_then_parent(
    s0: DirInfo,
    parent_listing1: Seq<FileEntry>,
    listing1: Seq<FileEntry>,
    s1: DirInfo,
    parent_listing2: Seq<FileEntry>,
    listing2: Seq<FileEntry>,
    s2: DirInfo,
)
    requires
        s0.wf(),
        selected_dir(s0.current) is Some,
        selected_dir(s0.current)->0.path@ != s0.current.path@,
        parent_of(selected_dir(s0.current)->0.path@) == Option::Some(s0.current.path@),
        paths_of(s0.current.files@).no_duplicates(),
        loaded(
            s0.selected_map@,
            selected_dir(s0.current)->0.path@,
            parent_listing1,
            listing1,
            s1,
        ),
        s1.parent is Some ==> s1.parent->0.files@ == s0.current.files@,
        loaded(s1.selected_map@, s1.parent->0.path@, parent_listing2, listing2, s2),
        s2.current.files@ == s0.current.files@,
    ensures
        s2.current.selected == s0.current.selected,
{
    let i = s0.current.selected->0 as int;
    let d = s0.current.files@[i];
    lemma_position_of_unique(s0.current.files@, i);
    assert(s1.selected_map@ == s0.selected_map@.insert(s0.current.path@, i as usize));
    assert(recorded(s1.selected_map@, s0.current.path@) == Option::Some(i as usize));
}

} // verus!
