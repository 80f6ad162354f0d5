//! The atlas registry: which loaded atlas belongs to which image path.
use vstd::prelude::*;

verus! {

/// Atlas handles keyed by image path, one entry per path.
#[derive(Clone, Debug)]
pub struct AtlasRegistry {
    pub entries: Vec<(String, u64)>,
}

impl AtlasRegistry {
    /// No path appears twice.
    pub open spec fn wf(self) -> bool {
        forall|i: int, j: int|
            0 <= i < self.entries@.len() && 0 <= j < self.entries@.len() && i != j
                ==> (#[trigger] self.entries@[i]).0@ != (#[trigger] self.entries@[j]).0@
    }

    /// Entry `i` is the one for `path`.
    pub open spec fn entry_for(self, path: Seq<char>, i: int) -> bool {
        0 <= i < self.entries@.len() && self.entries@[i].0@ == path
    }

    /// The handle registered for `path`, if any.
    pub open spec fn handle_for(self, path: Seq<char>) -> Option<u64> {
        if exists|i: int| self.entry_for(path, i) {
            Some(self.entries@[choose|i: int| self.entry_for(path, i)].1)
        } else {
            None
        }
    }

    /// In a well-formed registry the entry for a path is unique.
    proof fn lemma_entry(self, path: Seq<char>, i: int)
        requires
            self.wf(),
            self.entry_for(path, i),
        ensures
            self.handle_for(path) == Some(self.entries@[i].1),
    {
        let j = choose|j: int| self.entry_for(path, j);
        if j != i {
            assert(self.entries@[i].0@ != self.entries@[j].0@);
        }
    }

    /// An empty registry.
    pub fn new() -> (r: AtlasRegistry)
        ensures
            r.wf(),
            forall|path: Seq<char>| r.handle_for(path) is None,
    {
        AtlasRegistry { entries: Vec::new() }
    }

    /// The position of the entry for `path`, if any.
    fn position(&self, path: &String) -> (r: Option<usize>)
        ensures
            match r {
                Some(i) => self.entry_for(path@, i as int),
                None => forall|i: int| !self.entry_for(path@, i),
            },
    {
        let mut i: usize = 0;
        while i < self.entries.len()
            invariant
                0 <= i <= self.entries@.len(),
                forall|k: int| 0 <= k < i ==> !self.entry_for(path@, k),
            decreases self.entries@.len() - i,
        {
            if self.entries[i].0 == *path {
                return Some(i);
            }
            i += 1;
        }
        None
    }

    /// The handle registered for `path`, if any.
    pub fn get(&self, path: &String) -> (r: Option<u64>)
        requires
            self.wf(),
        ensures
            r == self.handle_for(path@),
    {
        match self.position(path) {
            Some(i) => {
                proof {
                    self.lemma_entry(path@, i as int);
                }
                Some(self.entries[i].1)
            },
            None => None,
        }
    }

    /// Registers `handle` for `path`, replacing an earlier handle for it.
    pub fn register(&mut self, path: String, handle: u64)
        requires
            old(self).wf(),
        ensures
            final(self).wf(),
            final(self).handle_for(path@) == Some(handle),
            forall|q: Seq<char>| q != path@ ==> final(self).handle_for(q) == old(self).handle_for(q),
    {
        let ghost before = *self;
        let ghost key = path@;
        match self.position(&path) {
            Some(i) => {
                self.entries.set(i, (path, handle));
                proof {
                    assert(self.entries@ == before.entries@.update(i as int, self.entries@[i as int]));
                    assert forall|q: Seq<char>| q != key implies self.handle_for(q) == before.handle_for(q) by {
                        if exists|k: int| before.entry_for(q, k) {
                            let k = choose|k: int| before.entry_for(q, k);
                            before.lemma_entry(q, k);
                            self.lemma_entry(q, k);
                        } else {
                            if exists|k: int| self.entry_for(q, k) {
                                let k = choose|k: int| self.entry_for(q, k);
                                assert(before.entry_for(q, k));
                            }
                        }
                    }
                    self.lemma_entry(key, i as int);
                }
            },
            None => {
                self.entries.push((path, handle));
                proof {
                    let n = before.entries@.len() as int;
                    assert(self.entries@[n].0@ == key);
                    assert forall|i: int, j: int|
                        0 <= i < self.entries@.len() && 0 <= j < self.entries@.len() && i != j
                            implies (#[trigger] self.entries@[i]).0@ != (#[trigger] self.entries@[j]).0@ by {
                        if i < n && j < n {
                            assert(before.entries@[i] == self.entries@[i]);
                            assert(before.entries@[j] == self.entries@[j]);
                        } else if i < n {
                            assert(!before.entry_for(key, i));
                        } else {
                            assert(!before.entry_for(key, j));
                        }
                    }
                    assert forall|q: Seq<char>| q != key implies self.handle_for(q) == before.handle_for(q) by {
                        if exists|k: int| before.entry_for(q, k) {
                            let k = choose|k: int| before.entry_for(q, k);
                            before.lemma_entry(q, k);
                            self.lemma_entry(q, k);
                        } else {
                            if exists|k: int| self.entry_for(q, k) {
                                let k = choose|k: int| self.entry_for(q, k);
                                assert(before.entry_for(q, k));
                            }
                        }
                    }
                    self.lemma_entry(key, n);
                }
            },
        }
    }
}

} // verus!
