//! The remembered selection of each visited directory.
use vstd::prelude::*;

verus! {

/// For each directory visited, the index last selected in it.
pub struct SelectedMap {
    pub items: Vec<(String, usize)>,
}

impl SelectedMap {
    /// No directory is recorded twice.
    pub open spec fn wf(&self) -> bool {
        forall|i: int, j: int|
            0 <= i < j < self.items@.len() ==> (#[trigger] self.items@[i]).0@ != (
            #[trigger] self.items@[j]).0@
    }

    pub open spec fn has_key_at(&self, key: Seq<char>, i: int) -> bool {
        0 <= i < self.items@.len() && self.items@[i].0@ == key
    }
}

impl View for SelectedMap {
    type V = Map<Seq<char>, usize>;

    open spec fn view(&self) -> Map<Seq<char>, usize> {
        Map::new(
            |k: Seq<char>| exists|i: int| self.has_key_at(k, i),
            |k: Seq<char>| self.items@[choose|i: int| self.has_key_at(k, i)].1,
        )
    }
}

/// The value recorded for `key`, if any.
pub open spec fn recorded(m: Map<Seq<char>, usize>, key: Seq<char>) -> Option<usize> {
    if m.contains_key(key) {
        Option::Some(m[key])
    } else {
        Option::None
    }
}

impl SelectedMap {
    proof fn lemma_lookup_at(&self, key: Seq<char>, i: int)
        requires
            self.wf(),
            self.has_key_at(key, i),
        ensures
            self@.contains_key(key),
            self@[key] == self.items@[i].1,
    {
        let j = choose|j: int| self.has_key_at(key, j);
        assert(self.has_key_at(key, j));
        if i < j {
            assert(self.items@[i].0@ != self.items@[j].0@);
        } else if j < i {
            assert(self.items@[j].0@ != self.items@[i].0@);
        }
    }

    /// A map that records nothing.
    pub fn new() -> (r: SelectedMap)
        ensures
            r.wf(),
            r@ == Map::<Seq<char>, usize>::empty(),
    {
        let r = SelectedMap { items: Vec::new() };
        assert(r@ =~= Map::<Seq<char>, usize>::empty());
        r
    }

    fn find(&self, key: &String) -> (r: Option<usize>)
        ensures
            match r {
                Option::None => forall|i: int| 0 <= i < self.items@.len() ==> !self.has_key_at(key@, i),
                Option::Some(i) => self.has_key_at(key@, i as int),
            },
    {
        let mut k: usize = 0;
        while k < self.items.len()
            invariant
                k <= self.items@.len(),
                forall|i: int| 0 <= i < k ==> !self.has_key_at(key@, i),
            decreases self.items@.len() - k,
        {
            if self.items[k].0 == *key {
                return Some(k);
            }
            k = k + 1;
        }
        None
    }

    /// The index recorded for directory `key`.
    pub fn get(&self, key: &String) -> (r: Option<usize>)
        requires
            self.wf(),
        ensures
            r == recorded(self@, key@),
    {
        match self.find(key) {
            Some(i) => {
                proof {
                    self.lemma_lookup_at(key@, i as int);
                }
                Some(self.items[i].1)
            },
            None => {
                assert(!self@.contains_key(key@));
                None
            },
        }
    }

    /// Records `value` for directory `key`, replacing what was there.
    pub fn insert(&mut self, key: String, value: usize)
        requires
            old(self).wf(),
        ensures
            final(self).wf(),
            final(self)@ == old(self)@.insert(key@, value),
    {
        let ghost k = key@;
        let ghost before = *self;
        match self.find(&key) {
            Some(i) => {
                self.items.set(i, (key, value));
                assert forall|q: Seq<char>| #[trigger] self@.contains_key(q) implies before@.insert(k, value).contains_key(q) && self@[q] == before@.insert(k, value)[q] by {
                    let j = choose|j: int| self.has_key_at(q, j);
                    self.lemma_lookup_at(q, j);
                    if q != k {
                        assert(before.has_key_at(q, j));
                        before.lemma_lookup_at(q, j);
                    }
                }
                assert forall|q: Seq<char>| #[trigger] before@.insert(k, value).contains_key(q) implies self@.contains_key(q) by {
                    if q == k {
                        assert(self.has_key_at(q, i as int));
                    } else {
                        let j = choose|j: int| before.has_key_at(q, j);
                        assert(self.has_key_at(q, j));
                    }
                }
            },
            None => {
                self.items.push((key, value));
                let ghost n: int = self.items@.len() - 1;
                assert forall|i: int, j: int| 0 <= i < j < self.items@.len() implies (#[trigger] self.items@[i]).0@ != (#[trigger] self.items@[j]).0@ by {
                    if j == n {
                        assert(!before.has_key_at(k, i));
                    } else {
                        assert(before.items@[i] == self.items@[i] && before.items@[j] == self.items@[j]);
                    }
                }
                assert forall|q: Seq<char>| #[trigger] self@.contains_key(q) implies before@.insert(k, value).contains_key(q) && self@[q] == before@.insert(k, value)[q] by {
                    let j = choose|j: int| self.has_key_at(q, j);
                    self.lemma_lookup_at(q, j);
                    if j < n {
                        assert(before.has_key_at(q, j));
                        before.lemma_lookup_at(q, j);
                    }
                }
                assert forall|q: Seq<char>| #[trigger] before@.insert(k, value).contains_key(q) implies self@.contains_key(q) by {
                    if q == k {
                        assert(self.has_key_at(q, n));
                    } else {
                        let j = choose|j: int| before.has_key_at(q, j);
                        assert(self.has_key_at(q, j));
                    }
                }
            },
        }
        assert(self@ =~= before@.insert(k, value));
    }
}

} // verus!
