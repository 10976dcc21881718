//! An append-only set of values, kept as a vector without repeats.
use vstd::prelude::*;

verus! {

pub struct ValueSet {
    items: Vec<usize>,
}

impl View for ValueSet {
    type V = Set<usize>;

    closed spec fn view(&self) -> Set<usize> {
        self.items@.to_set()
    }
}

impl ValueSet {
    /// No value is held twice.
    pub closed spec fn wf(&self) -> bool {
        self.items@.no_duplicates()
    }

    pub fn new() -> (r: ValueSet)
        ensures
            r.wf(),
            r@ == Set::<usize>::empty(),
    {
        let r = ValueSet { items: Vec::new() };
        assert(r@ =~= Set::<usize>::empty());
        r
    }

    pub fn contains(&self, v: usize) -> (r: bool)
        ensures
            r == self@.contains(v),
    {
        let mut i: usize = 0;
        while i < self.items.len()
            invariant
                0 <= i <= self.items.len(),
                forall|j: int| 0 <= j < i ==> self.items@[j] != v,
            decreases self.items.len() - i,
        {
            if self.items[i] == v {
                assert(self.items@.contains(v));
                return true;
            }
            i = i + 1;
        }
        false
    }

    /// Adds `v`; adding a value already held changes nothing.
    pub fn insert(&mut self, v: usize)
        requires
            old(self).wf(),
        ensures
            final(self).wf(),
            final(self)@ == old(self)@.insert(v),
    {
        if !self.contains(v) {
            proof {
                self.items@.unique_seq_to_set();
            }
            let ghost before = self.items@;
            self.items.push(v);
            proof {
                assert(self.items@ == before.push(v));
                before.lemma_push_to_set_commute(v);
            }
        } else {
            assert(self@.insert(v) =~= self@);
        }
    }

    /// A copy of the values, each once, in no promised order.
    pub fn snapshot(&self) -> (r: Vec<usize>)
        requires
            self.wf(),
        ensures
            r@.to_set() == self@,
            r@.no_duplicates(),
    {
        self.items.clone()
    }

    /// The values held here and not in `other`, each once.
    pub fn difference(&self, other: &ValueSet) -> (r: Vec<usize>)
        requires
            self.wf(),
        ensures
            r@.to_set() == self@.difference(other@),
            r@.no_duplicates(),
    {
        let mut r: Vec<usize> = Vec::new();
        let mut i: usize = 0;
        while i < self.items.len()
            invariant
                0 <= i <= self.items.len(),
                self.items@.no_duplicates(),
                r@.no_duplicates(),
                forall|x: usize| r@.contains(x) <==> (exists|j: int| 0 <= j < i && self.items@[j] == x && !other@.contains(x)),
            decreases self.items.len() - i,
        {
            let x = self.items[i];
            let ghost r_before = r@;
            if !other.contains(x) {
                proof {
                    assert forall|j: int| 0 <= j < r@.len() implies r@[j] != x by {
                        if r@[j] == x {
                            assert(r@.contains(x));
                            let k = choose|k: int| 0 <= k < i && self.items@[k] == x && !other@.contains(x);
                        }
                    }
                }
                let ghost r0 = r@;
                r.push(x);
                proof {
                    assert forall|y: usize| r@.contains(y) <==> (r0.contains(y) || y == x) by {
                        if r@.contains(y) {
                            let k = choose|k: int| 0 <= k < r@.len() && r@[k] == y;
                            if k < r0.len() {
                                assert(r0[k] == y);
                            }
                        }
                        if r0.contains(y) {
                            let k = choose|k: int| 0 <= k < r0.len() && r0[k] == y;
                            assert(r@[k] == y);
                        }
                        if y == x {
                            assert(r@[r0.len() as int] == y);
                        }
                    }
                }
            }
            proof {
                assert forall|y: usize| r@.contains(y) <==> (exists|j: int| 0 <= j < i + 1 && self.items@[j] == y && !other@.contains(y)) by {
                    if exists|j: int| 0 <= j < i + 1 && self.items@[j] == y && !other@.contains(y) {
                        let j = choose|j: int| 0 <= j < i + 1 && self.items@[j] == y && !other@.contains(y);
                        if j < i {
                            assert(r_before.contains(y));
                        }
                    }
                    if r_before.contains(y) {
                        let j = choose|j: int| 0 <= j < i && self.items@[j] == y && !other@.contains(y);
                        assert(0 <= j < i + 1);
                    }
                }
            }
            i = i + 1;
        }
        assert(r@.to_set() =~= self@.difference(other@)) by {
            assert forall|x: usize| r@.to_set().contains(x) <==> self@.difference(other@).contains(x) by {
                if self.items@.contains(x) && !other@.contains(x) {
                    let j = choose|j: int| 0 <= j < self.items@.len() && self.items@[j] == x;
                }
            }
        }
        r
    }
}

} // verus!
