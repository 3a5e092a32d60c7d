//! Sets of names.

use crate::text::same;
use vstd::prelude::*;

verus! {

/// A set of names, none of them held twice.
pub struct IdSet {
    names: Vec<String>,
}

impl View for IdSet {
    type V = vstd::set::Set<Seq<char>>;

    closed spec fn view(&self) -> vstd::set::Set<Seq<char>> {
        names_of(self.names@)
    }
}

spec fn names_of(names: Seq<String>) -> vstd::set::Set<Seq<char>> {
    vstd::set::Set::new(|n: Seq<char>| exists|i: int| 0 <= i < names.len() && #[trigger] names[i]@ == n)
}

/// Names that differ make a set of as many.
proof fn lemma_names(names: Seq<String>)
    requires
        forall|i: int, j: int|
            0 <= i < j < names.len() ==> #[trigger] names[i]@ != #[trigger] names[j]@,
    ensures
        names_of(names).finite(),
        names_of(names).len() == names.len(),
    decreases names.len(),
{
    if names.len() == 0 {
        assert(names_of(names) =~= vstd::set::Set::<Seq<char>>::empty());
    } else {
        let t = names.drop_last();
        lemma_names(t);
        assert(!names_of(t).contains(names.last()@)) by {
            if names_of(t).contains(names.last()@) {
                let i = choose|i: int| 0 <= i < t.len() && #[trigger] t[i]@ == names.last()@;
                assert(names[i]@ != names[names.len() - 1]@);
            }
        }
        assert(names_of(names) =~= names_of(t).insert(names.last()@)) by {
            assert forall|n: Seq<char>| #[trigger] names_of(names).contains(n) == names_of(
                t,
            ).insert(names.last()@).contains(n) by {
                if names_of(names).contains(n) {
                    let i = choose|i: int| 0 <= i < names.len() && #[trigger] names[i]@ == n;
                    if i < t.len() {
                        assert(t[i]@ == n);
                    }
                }
                if names_of(t).contains(n) {
                    let i = choose|i: int| 0 <= i < t.len() && #[trigger] t[i]@ == n;
                    assert(names[i]@ == n);
                }
                if n == names.last()@ {
                    assert(names[names.len() - 1]@ == n);
                }
            }
        }
    }
}

impl IdSet {
    #[verifier::type_invariant]
    spec fn wf(self) -> bool {
        forall|i: int, j: int|
            0 <= i < j < self.names@.len() ==> #[trigger] self.names@[i]@ != #[trigger]
                self.names@[j]@
    }

    /// The empty set.
    pub fn new() -> (r: IdSet)
        ensures
            r@ == vstd::set::Set::<Seq<char>>::empty(),
    {
        let r = IdSet { names: Vec::new() };
        assert(r@ =~= vstd::set::Set::<Seq<char>>::empty());
        r
    }

    fn find(&self, name: &str) -> (r: Option<usize>)
        ensures
            match r {
                Some(i) => i < self.names@.len() && self.names@[i as int]@ == name@,
                None => forall|i: int|
                    0 <= i < self.names@.len() ==> #[trigger] self.names@[i]@ != name@,
            },
    {
        let mut i: usize = 0;
        while i < self.names.len()
            invariant
                i <= self.names@.len(),
                forall|j: int| 0 <= j < i ==> #[trigger] self.names@[j]@ != name@,
            decreases self.names@.len() - i,
        {
            if same(self.names[i].as_str(), name) {
                return Some(i);
            }
            i += 1;
        }
        None
    }

    /// How many names the set holds.
    pub fn len(&self) -> (r: usize)
        ensures
            self@.finite(),
            r == self@.len(),
    {
        proof {
            use_type_invariant(self);
            lemma_names(self.names@);
        }
        self.names.len()
    }

    /// Whether the set holds a name.
    pub fn contains(&self, name: &str) -> (r: bool)
        ensures
            r == self@.contains(name@),
    {
        let found = self.find(name);
        proof {
            if let Some(i) = found {
                assert(self.names@[i as int]@ == name@);
            }
        }
        found.is_some()
    }

    /// Adds a name; whether it is new.
    pub fn insert(&mut self, name: &str) -> (r: bool)
        ensures
            final(self)@ == old(self)@.insert(name@),
            r == !old(self)@.contains(name@),
    {
        proof {
            use_type_invariant(&*self);
        }
        match self.find(name) {
            Some(i) => {
                assert(old(self).names@[i as int]@ == name@);
                assert(self@ =~= old(self)@.insert(name@));
                false
            },
            None => {
                let mut next: Vec<String> = Vec::new();
                let ghost was = self.names@;
                let mut k: usize = 0;
                while k < self.names.len()
                    invariant
                        k <= self.names@.len(),
                        self.names@ == was,
                        next@ =~= was.take(k as int),
                    decreases was.len() - k,
                {
                    next.push(self.names[k].clone());
                    k += 1;
                }
                next.push(name.to_owned());
                assert(next@.len() == was.len() + 1);
                assert(forall|i: int| 0 <= i < was.len() ==> next@[i] == was[i]);
                *self = IdSet { names: next };
                assert(self@ =~= old(self)@.insert(name@)) by {
                    assert forall|n: Seq<char>| self@.contains(n) == old(self)@.insert(
                        name@,
                    ).contains(n) by {
                        if old(self)@.contains(n) {
                            let i = choose|i: int| 0 <= i < was.len() && #[trigger] was[i]@ == n;
                            assert(self.names@[i]@ == n);
                        }
                        if n == name@ {
                            assert(self.names@[was.len() as int]@ == n);
                        }
                        if self@.contains(n) {
                            let i = choose|i: int|
                                0 <= i < self.names@.len() && #[trigger] self.names@[i]@ == n;
                            if i < was.len() {
                                assert(was[i]@ == n);
                            }
                        }
                    }
                }
                true
            },
        }
    }

    /// Removes a name; whether it was there.
    pub fn remove(&mut self, name: &str) -> (r: bool)
        ensures
            final(self)@ == old(self)@.remove(name@),
            r == old(self)@.contains(name@),
    {
        proof {
            use_type_invariant(&*self);
        }
        match self.find(name) {
            None => {
                assert(self@ =~= old(self)@.remove(name@));
                false
            },
            Some(at) => {
                let mut next: Vec<String> = Vec::new();
                let ghost was = self.names@;
                let mut k: usize = 0;
                while k < self.names.len()
                    invariant
                        k <= self.names@.len(),
                        at < was.len(),
                        self.names@ == was,
                        next@ =~= was.remove(at as int).take(
                            if k <= at {
                                k as int
                            } else {
                                k - 1
                            },
                        ),
                    decreases was.len() - k,
                {
                    if k != at {
                        next.push(self.names[k].clone());
                    }
                    k += 1;
                }
                assert(next@ =~= was.remove(at as int));
                *self = IdSet { names: next };
                assert(self@ =~= old(self)@.remove(name@)) by {
                    assert(was[at as int]@ == name@);
                    assert forall|n: Seq<char>| self@.contains(n) == old(self)@.remove(
                        name@,
                    ).contains(n) by {
                        if self@.contains(n) {
                            let i = choose|i: int|
                                0 <= i < self.names@.len() && #[trigger] self.names@[i]@ == n;
                            let j = if i < at {
                                i
                            } else {
                                i + 1
                            };
                            assert(was[j]@ == n);
                        }
                        if old(self)@.contains(n) && n != name@ {
                            let j = choose|j: int| 0 <= j < was.len() && #[trigger] was[j]@ == n;
                            let i = if j < at {
                                j
                            } else {
                                j - 1
                            };
                            assert(self.names@[i]@ == n);
                        }
                    }
                }
                true
            },
        }
    }
}

} // verus!
