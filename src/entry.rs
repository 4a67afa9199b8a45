//! Listing entries, the order in which listings are shown, and their display names.
use vstd::prelude::*;
use vstd::multiset::Multiset;
use vstd::string::StringExecFns;
use vstd::utf8::encode_utf8;

verus! {

/// One item of a directory listing or of the share list.
#[derive(Clone, Debug)]
pub struct FileEntry {
    /// The absolute path of the item.
    pub path: String,
    /// The final component of `path`.
    pub name: String,
    /// Whether the item was a directory when it was listed.
    pub is_dir: bool,
}

/// What `std::path::Path::file_name` gives for a path, lossily decoded, or
/// the empty string where the path has no final component.
pub uninterp spec fn base_name_of(path: Seq<char>) -> Seq<char>;

/// What `std::path::Path::components` gives for a path, each component
/// lossily decoded.
pub uninterp spec fn components_of(path: Seq<char>) -> Seq<Seq<char>>;

/// Relies on `std::path::Path::file_name` for the final component of a path.
#[verifier::external_body]
fn file_name(path: &str) -> (r: String)
    ensures
        r@ == base_name_of(path@),
{
    std::path::Path::new(path).file_name().map(|s| s.to_string_lossy().into_owned()).unwrap_or_default()
}

/// Relies on `std::path::Path::components` for the components of a path, in order.
#[verifier::external_body]
fn path_components(path: &str) -> (r: Vec<String>)
    ensures
        r.deep_view() == components_of(path@),
{
    std::path::Path::new(path).components().map(|c| c.as_os_str().to_string_lossy().into_owned()).collect()
}

impl FileEntry {
    /// An entry for `path`; its name is the path's final component.
    pub fn new(path: String, is_dir: bool) -> (r: FileEntry)
        ensures
            r.path@ == path@,
            r.name@ == base_name_of(path@),
            r.is_dir == is_dir,
    {
        let name = file_name(path.as_str());
        FileEntry { path, name, is_dir }
    }

    /// A copy of the entry, equal to it field by field.
    pub fn duplicate(&self) -> (r: FileEntry)
        ensures
            r == *self,
    {
        FileEntry { path: self.path.clone(), name: self.name.clone(), is_dir: self.is_dir }
    }
}

/// The bytes of an entry's name, as the filesystem compares them.
pub open spec fn name_bytes(e: FileEntry) -> Seq<u8> {
    encode_utf8(e.name@)
}

/// Strict lexicographic order on byte strings.
pub open spec fn bytes_lt(a: Seq<u8>, b: Seq<u8>) -> bool
    decreases a.len(),
{
    if b.len() == 0 {
        false
    } else if a.len() == 0 {
        true
    } else if a[0] != b[0] {
        a[0] < b[0]
    } else {
        bytes_lt(a.drop_first(), b.drop_first())
    }
}

/// `a` is listed strictly before `b`: directories come before files, and
/// within each group names go in byte order.
pub open spec fn precedes(a: FileEntry, b: FileEntry) -> bool {
    (a.is_dir && !b.is_dir) || (a.is_dir == b.is_dir && bytes_lt(name_bytes(a), name_bytes(b)))
}

/// Every entry is listed no later than the entries after it.
pub open spec fn is_sorted(s: Seq<FileEntry>) -> bool {
    forall|i: int, j: int| 0 <= i < j < s.len() ==> !precedes(#[trigger] s[j], #[trigger] s[i])
}

/// The paths of a sequence of entries.
pub open spec fn paths_of(s: Seq<FileEntry>) -> Seq<Seq<char>> {
    s.map_values(|e: FileEntry| e.path@)
}

proof fn lemma_bytes_lt_irreflexive(a: Seq<u8>)
    ensures
        !bytes_lt(a, a),
    decreases a.len(),
{
    if a.len() > 0 {
        lemma_bytes_lt_irreflexive(a.drop_first());
    }
}

proof fn lemma_bytes_lt_transitive(a: Seq<u8>, b: Seq<u8>, c: Seq<u8>)
    requires
        bytes_lt(a, b),
        bytes_lt(b, c),
    ensures
        bytes_lt(a, c),
    decreases a.len(),
{
    if a.len() > 0 && a[0] == b[0] && b[0] == c[0] {
        lemma_bytes_lt_transitive(a.drop_first(), b.drop_first(), c.drop_first());
    }
}

proof fn lemma_bytes_lt_trichotomy(a: Seq<u8>, b: Seq<u8>)
    requires
        !bytes_lt(a, b),
        !bytes_lt(b, a),
    ensures
        a == b,
    decreases a.len(),
{
    if a.len() > 0 && b.len() > 0 {
        lemma_bytes_lt_trichotomy(a.drop_first(), b.drop_first());
        assert(a =~= seq![a[0]] + a.drop_first());
        assert(b =~= seq![b[0]] + b.drop_first());
    }
}

/// The listing order is a strict order.
pub proof fn lemma_precedes_transitive(a: FileEntry, b: FileEntry, c: FileEntry)
    requires
        precedes(a, b),
        precedes(b, c),
    ensures
        precedes(a, c),
{
    if a.is_dir == b.is_dir && b.is_dir == c.is_dir {
        lemma_bytes_lt_transitive(name_bytes(a), name_bytes(b), name_bytes(c));
    }
}

/// No entry is listed strictly before itself.
pub proof fn lemma_precedes_irreflexive(a: FileEntry)
    ensures
        !precedes(a, a),
{
    lemma_bytes_lt_irreflexive(name_bytes(a));
}

/// Whether byte string `a` comes strictly before `b`.
fn slice_lt(a: &[u8], b: &[u8]) -> (r: bool)
    ensures
        r == bytes_lt(a@, b@),
{
    let mut i: usize = 0;
    assert(a@.subrange(0, a@.len() as int) =~= a@);
    assert(b@.subrange(0, b@.len() as int) =~= b@);
    while i < a.len() && i < b.len()
        invariant
            i <= a@.len(),
            i <= b@.len(),
            bytes_lt(a@, b@) == bytes_lt(a@.subrange(i as int, a@.len() as int), b@.subrange(i as int, b@.len() as int)),
        decreases a@.len() - i,
    {
        if a[i] != b[i] {
            return a[i] < b[i];
        }
        assert(a@.subrange(i as int, a@.len() as int).drop_first() =~= a@.subrange(i + 1, a@.len() as int));
        assert(b@.subrange(i as int, b@.len() as int).drop_first() =~= b@.subrange(i + 1, b@.len() as int));
        i = i + 1;
    }
    i < b.len()
}

/// Whether `a` is listed strictly before `b`.
pub fn entry_precedes(a: &FileEntry, b: &FileEntry) -> (r: bool)
    ensures
        r == precedes(*a, *b),
{
    if a.is_dir != b.is_dir {
        a.is_dir
    } else {
        slice_lt(a.name.as_str().as_bytes(), b.name.as_str().as_bytes())
    }
}

/// The position at which `x` goes into the sorted `s`: after every entry not
/// listed after it.
pub fn insertion_point(s: &Vec<FileEntry>, x: &FileEntry) -> (p: usize)
    requires
        is_sorted(s@),
    ensures
        p <= s@.len(),
        forall|k: int| 0 <= k < p ==> !precedes(*x, #[trigger] s@[k]),
        forall|k: int| p <= k < s@.len() ==> precedes(*x, #[trigger] s@[k]),
{
    let mut p: usize = 0;
    while p < s.len()
        invariant
            p <= s@.len(),
            is_sorted(s@),
            forall|k: int| 0 <= k < p ==> !precedes(*x, #[trigger] s@[k]),
        decreases s@.len() - p,
    {
        if entry_precedes(x, &s[p]) {
            assert forall|k: int| p <= k < s@.len() implies precedes(*x, #[trigger] s@[k]) by {
                if k > p && !precedes(*x, s@[k]) {
                    // s[k] would then come before s[p]
                    assert(!precedes(s@[k], s@[p as int]));
                    if precedes(s@[k], *x) {
                        lemma_precedes_transitive(s@[k], *x, s@[p as int]);
                    } else {
                        lemma_bytes_lt_trichotomy(name_bytes(*x), name_bytes(s@[k]));
                    }
                }
            }
            return p;
        }
        p = p + 1;
    }
    p
}

/// Putting `x` at its insertion point keeps a listing sorted.
pub proof fn lemma_insert_sorted(s: Seq<FileEntry>, p: int, x: FileEntry)
    requires
        is_sorted(s),
        0 <= p <= s.len(),
        forall|k: int| 0 <= k < p ==> !precedes(x, #[trigger] s[k]),
        forall|k: int| p <= k < s.len() ==> precedes(x, #[trigger] s[k]),
    ensures
        is_sorted(s.insert(p, x)),
        s.insert(p, x).to_multiset() == s.to_multiset().insert(x),
{
    let t = s.insert(p, x);
    assert forall|i: int, j: int| 0 <= i < j < t.len() implies !precedes(#[trigger] t[j], #[trigger] t[i]) by {
        if i == p && precedes(t[j], x) {
            lemma_precedes_transitive(t[j], x, t[j]);
            lemma_precedes_irreflexive(t[j]);
        }
    }
    assert(t.remove(p) =~= s);
    broadcast use vstd::seq_lib::group_to_multiset_ensures;
    assert(t.to_multiset().remove(x) == s.to_multiset());
    assert(t.to_multiset() =~= s.to_multiset().insert(x));
}

/// `a` and `b` are listed alike: both directories or both files, with the
/// same name.
pub open spec fn listed_alike(a: FileEntry, b: FileEntry) -> bool {
    a.is_dir == b.is_dir && name_bytes(a) == name_bytes(b)
}

/// Holds of the entries listed alike with `k`.
pub open spec fn alike_to(k: FileEntry) -> spec_fn(FileEntry) -> bool {
    |y: FileEntry| listed_alike(y, k)
}

proof fn lemma_insert_alike(s: Seq<FileEntry>, p: int, x: FileEntry, k: FileEntry)
    requires
        0 <= p <= s.len(),
        forall|j: int| p <= j < s.len() ==> precedes(x, #[trigger] s[j]),
    ensures
        s.insert(p, x).filter(alike_to(k)) == s.filter(alike_to(k)) + if listed_alike(x, k) {
            seq![x]
        } else {
            Seq::empty()
        },
{
    let f = alike_to(k);
    let a = s.subrange(0, p);
    let b = s.subrange(p, s.len() as int);
    assert(s =~= a + b);
    assert(s.insert(p, x) =~= a + (seq![x] + b));
    Seq::filter_distributes_over_add(a, b, f);
    Seq::filter_distributes_over_add(a, seq![x] + b, f);
    b.lemma_filter_prepend(x, f);
    if listed_alike(x, k) {
        assert forall|i: int| 0 <= i < b.len() implies !f(#[trigger] b[i]) by {
            assert(precedes(x, s[p + i]));
            lemma_bytes_lt_irreflexive(name_bytes(x));
        }
        b.lemma_all_neg_filter_empty(f);
        assert(b.filter(f) =~= Seq::empty());
        assert(s.insert(p, x).filter(f) =~= s.filter(f) + seq![x]);
    } else {
        assert(s.insert(p, x).filter(f) =~= s.filter(f) + Seq::empty());
    }
}

/// Sorts a listing: directories before files, then by name in byte order.
/// Entries that are listed alike keep their relative order.
pub fn sort_files(files: &mut Vec<FileEntry>)
    ensures
        is_sorted(final(files)@),
        final(files)@.to_multiset() == old(files)@.to_multiset(),
        forall|k: FileEntry|
            #[trigger] final(files)@.filter(alike_to(k)) == old(files)@.filter(alike_to(k)),
{
    let ghost input = files@;
    let mut sorted: Vec<FileEntry> = Vec::new();
    let mut rest: Vec<FileEntry> = Vec::new();
    std::mem::swap(files, &mut rest);
    proof {
        broadcast use vstd::seq_lib::group_to_multiset_ensures;
        assert(sorted@.to_multiset() =~= Multiset::empty());
        assert forall|k: FileEntry| #[trigger] sorted@.filter(alike_to(k)) + rest@.filter(alike_to(k)) == input.filter(alike_to(k)) by {
            reveal(Seq::filter);
            assert(sorted@.filter(alike_to(k)) + rest@.filter(alike_to(k)) =~= rest@.filter(alike_to(k)));
        }
    }
    while rest.len() > 0
        invariant
            is_sorted(sorted@),
            sorted@.to_multiset().add(rest@.to_multiset()) == input.to_multiset(),
            forall|k: FileEntry|
                #[trigger] sorted@.filter(alike_to(k)) + rest@.filter(alike_to(k)) == input.filter(alike_to(k)),
        decreases rest@.len(),
    {
        let ghost before = rest@;
        let x = rest.remove(0);
        let p = insertion_point(&sorted, &x);
        proof {
            lemma_insert_sorted(sorted@, p as int, x);
            broadcast use vstd::seq_lib::group_to_multiset_ensures;
            assert(before.remove(0) == rest@);
            assert(rest@.to_multiset() == before.to_multiset().remove(x));
            assert(before.to_multiset().count(x) > 0) by {
                assert(before.contains(before[0]));
            }
        }
        let ghost sorted_before = sorted@;
        sorted.insert(p, x);
        proof {
            assert(sorted@.to_multiset().add(rest@.to_multiset()) =~= input.to_multiset());
            assert(before =~= seq![x] + rest@);
            assert forall|k: FileEntry| #[trigger] sorted@.filter(alike_to(k)) + rest@.filter(alike_to(k)) == input.filter(alike_to(k)) by {
                lemma_insert_alike(sorted_before, p as int, x, k);
                rest@.lemma_filter_prepend(x, alike_to(k));
                assert(sorted_before.filter(alike_to(k)) + before.filter(alike_to(k)) == input.filter(alike_to(k)));
                assert(sorted@.filter(alike_to(k)) + rest@.filter(alike_to(k)) =~= sorted_before.filter(alike_to(k)) + before.filter(alike_to(k)));
            }
        }
    }
    proof {
        broadcast use vstd::seq_lib::group_to_multiset_ensures;
        assert(rest@.to_multiset() =~= Multiset::empty());
        assert(sorted@.to_multiset().add(Multiset::empty()) =~= sorted@.to_multiset());
        assert forall|k: FileEntry| #[trigger] sorted@.filter(alike_to(k)) == input.filter(alike_to(k)) by {
            reveal(Seq::filter);
            assert(rest@.filter(alike_to(k)) =~= Seq::empty());
            assert(sorted@.filter(alike_to(k)) + rest@.filter(alike_to(k)) =~= sorted@.filter(alike_to(k)));
        }
    }
    *files = sorted;
}

/// Parts joined with `/` between them.
pub open spec fn joined(parts: Seq<Seq<char>>) -> Seq<char>
    decreases parts.len(),
{
    if parts.len() == 0 {
        Seq::empty()
    } else if parts.len() == 1 {
        parts[0]
    } else {
        joined(parts.drop_last()) + seq!['/'] + parts.last()
    }
}

/// The last `n` parts, or all of them where there are fewer.
pub open spec fn last_parts(parts: Seq<Seq<char>>, n: nat) -> Seq<Seq<char>> {
    if parts.len() <= n {
        parts
    } else {
        parts.subrange(parts.len() - n, parts.len() as int)
    }
}

/// How an entry is shown in a pane: the last `n` components of its path
/// joined with `/`, and a trailing `/` for a directory.
pub open spec fn display_name(e: FileEntry, n: nat) -> Seq<char> {
    joined(last_parts(components_of(e.path@), n)) + if e.is_dir {
        seq!['/']
    } else {
        Seq::empty()
    }
}

/// The name under which an entry is shown in a pane.
pub fn path_last_n(entry: &FileEntry, n: usize) -> (r: String)
    ensures
        r@ == display_name(*entry, n as nat),
{
    let parts = path_components(entry.path.as_str());
    let ghost all = parts.deep_view();
    let start: usize = if parts.len() > n {
        parts.len() - n
    } else {
        0
    };
    let mut result = String::new();
    let mut i: usize = start;
    while i < parts.len()
        invariant
            start <= i <= parts@.len(),
            all == parts.deep_view(),
            result@ == joined(all.subrange(start as int, i as int)),
        decreases parts@.len() - i,
    {
        let ghost before = all.subrange(start as int, i as int);
        proof {
            reveal_strlit("/");
        }
        if i > start {
            result.append("/");
        }
        result.append(parts[i].as_str());
        proof {
            let after = all.subrange(start as int, i + 1);
            assert(all[i as int] == parts@[i as int]@);
            assert(after.drop_last() =~= before);
            assert(after.last() == all[i as int]);
            if i == start {
                assert(after.len() == 1);
            }
        }
        i = i + 1;
    }
    assert(all.subrange(start as int, parts@.len() as int) =~= last_parts(all, n as nat));
    proof {
        reveal_strlit("/");
    }
    if entry.is_dir {
        result.append("/");
    }
    assert(result@ =~= display_name(*entry, n as nat));
    result
}

} // verus!
