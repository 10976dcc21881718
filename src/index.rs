//! The seen-by index: for each node heard from (self included), the values
//! attributed to its knowledge.
use vstd::prelude::*;
use crate::store::ValueSet;

verus! {

/// What the index holds for `n`; a node never heard from knows nothing.
pub open spec fn known_of(seen: Map<Seq<char>, Set<usize>>, n: Seq<char>) -> Set<usize> {
    if seen.contains_key(n) {
        seen[n]
    } else {
        Set::empty()
    }
}

/// The index after `v` is attributed to `n`.
pub open spec fn add_value(seen: Map<Seq<char>, Set<usize>>, n: Seq<char>, v: usize) -> Map<
    Seq<char>,
    Set<usize>,
> {
    seen.insert(n, known_of(seen, n).insert(v))
}

pub struct SeenIndex {
    entries: Vec<(String, ValueSet)>,
    model: Ghost<Map<Seq<char>, Set<usize>>>,
}

impl View for SeenIndex {
    type V = Map<Seq<char>, Set<usize>>;

    closed spec fn view(&self) -> Map<Seq<char>, Set<usize>> {
        self.model@
    }
}

impl SeenIndex {
    /// One entry per node, each a well-formed set, and the model lists
    /// exactly the entries.
    pub closed spec fn wf(&self) -> bool {
        &&& forall|i: int, j: int|
            0 <= i < j < self.entries@.len() ==> self.entries@[i].0@ != self.entries@[j].0@
        &&& forall|i: int| 0 <= i < self.entries@.len() ==> (#[trigger] self.entries@[i]).1.wf()
        &&& forall|i: int|
            0 <= i < self.entries@.len() ==> self.model@.contains_key(
                (#[trigger] self.entries@[i]).0@,
            ) && self.model@[self.entries@[i].0@] == self.entries@[i].1@
        &&& forall|k: Seq<char>|
            #[trigger] self.model@.contains_key(k) ==> exists|i: int|
                0 <= i < self.entries@.len() && (#[trigger] self.entries@[i]).0@ == k
    }

    pub fn new() -> (r: SeenIndex)
        ensures
            r.wf(),
            r@ == Map::<Seq<char>, Set<usize>>::empty(),
    {
        SeenIndex { entries: Vec::new(), model: Ghost(Map::empty()) }
    }

    /// Where the entry of `n` stands, if there is one.
    fn find(&self, n: &String) -> (r: Option<usize>)
        requires
            self.wf(),
        ensures
            r matches Some(i) ==> i < self.entries@.len() && self.entries@[i as int].0@ == n@,
            r is None ==> !self@.contains_key(n@),
    {
        let mut i: usize = 0;
        while i < self.entries.len()
            invariant
                0 <= i <= self.entries.len(),
                forall|j: int| 0 <= j < i ==> self.entries@[j].0@ != n@,
            decreases self.entries.len() - i,
        {
            if self.entries[i].0 == *n {
                return Some(i);
            }
            i = i + 1;
        }
        proof {
            if self@.contains_key(n@) {
                let j = choose|j: int| 0 <= j < self.entries@.len() && (#[trigger] self.entries@[j]).0@ == n@;
                assert(self.entries@[j].0@ == n@);
            }
        }
        None
    }

    /// Attributes `v` to the knowledge of `n`.
    pub fn record(&mut self, n: &String, v: usize)
        requires
            old(self).wf(),
        ensures
            final(self).wf(),
            final(self)@ == add_value(old(self)@, n@, v),
    {
        let ghost m0 = self@;
        let ghost e0 = self.entries@;
        match self.find(n) {
            Some(i) => {
                let mut e = (String::new(), ValueSet::new());
                proof {
                    assert(self.entries@[i as int].1.wf());
                }
                std::mem::swap(&mut e, &mut self.entries[i]);
                e.1.insert(v);
                std::mem::swap(&mut e, &mut self.entries[i]);
                self.model = Ghost(add_value(m0, n@, v));
                proof {
                    assert(self.entries@.len() == e0.len());
                    assert(self.entries@[i as int].0@ == n@);
                    assert(forall|j: int| 0 <= j < e0.len() && j != i ==> self.entries@[j] == e0[j]);
                    assert(self.entries@[i as int].1@ == m0[n@].insert(v));
                    assert forall|k: Seq<char>| #[trigger] self.model@.contains_key(k) implies exists|j: int|
                        0 <= j < self.entries@.len() && (#[trigger] self.entries@[j]).0@ == k by {
                        if k != n@ {
                            assert(m0.contains_key(k));
                            let j = choose|j: int| 0 <= j < e0.len() && (#[trigger] e0[j]).0@ == k;
                            assert(self.entries@[j].0@ == k);
                        } else {
                            assert(self.entries@[i as int].0@ == k);
                        }
                    }
                }
            },
            None => {
                let mut s = ValueSet::new();
                s.insert(v);
                self.entries.push((n.clone(), s));
                self.model = Ghost(add_value(m0, n@, v));
                proof {
                    assert(self.entries@.len() == e0.len() + 1);
                    assert(forall|j: int| 0 <= j < e0.len() ==> self.entries@[j] == e0[j]);
                    let last = self.entries@.len() - 1;
                    assert forall|k: Seq<char>| #[trigger] self.model@.contains_key(k) implies exists|j: int|
                        0 <= j < self.entries@.len() && (#[trigger] self.entries@[j]).0@ == k by {
                        if k != n@ {
                            assert(m0.contains_key(k));
                            let j = choose|j: int| 0 <= j < e0.len() && (#[trigger] e0[j]).0@ == k;
                            assert(self.entries@[j] == e0[j]);
                        } else {
                            assert(self.entries@[last].0@ == k);
                        }
                    }
                    assert forall|j: int| 0 <= j < last implies self.entries@[j].0@ != n@ by {
                        if self.entries@[j].0@ == n@ {
                            assert(m0.contains_key(self.entries@[j].0@));
                        }
                    }
                }
            },
        }
    }

    /// The values attributed to `n`, each once.
    pub fn values_of(&self, n: &String) -> (r: Vec<usize>)
        requires
            self.wf(),
        ensures
            r@.to_set() == known_of(self@, n@),
            r@.no_duplicates(),
    {
        match self.find(n) {
            Some(i) => {
                proof {
                    assert(self.entries@[i as int].1.wf());
                }
                self.entries[i].1.snapshot()
            },
            None => {
                let r: Vec<usize> = Vec::new();
                assert(r@.to_set() =~= Set::<usize>::empty());
                r
            },
        }
    }

    /// The values attributed to `a` and not to `b`, each once.
    pub fn delta(&self, a: &String, b: &String) -> (r: Vec<usize>)
        requires
            self.wf(),
        ensures
            r@.to_set() == known_of(self@, a@).difference(known_of(self@, b@)),
            r@.no_duplicates(),
    {
        match self.find(a) {
            None => {
                let r: Vec<usize> = Vec::new();
                assert(r@.to_set() =~= known_of(self@, a@).difference(known_of(self@, b@)));
                r
            },
            Some(i) => {
                proof {
                    assert(self.entries@[i as int].1.wf());
                }
                match self.find(b) {
                    None => {
                        let r = self.entries[i].1.snapshot();
                        assert(known_of(self@, a@).difference(known_of(self@, b@)) =~= known_of(self@, a@));
                        r
                    },
                    Some(j) => self.entries[i].1.difference(&self.entries[j].1),
                }
            },
        }
    }
}

} // verus!
