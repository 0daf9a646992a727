//! The variable environment of one run.
use vstd::prelude::*;
use vstd::string::StringExecFns;

use crate::value::{Value, ValueModel};

verus! {

/// The names bound by `let` and their values. Each name appears once; the
/// latest binding of a name replaces the earlier one.
pub struct Scope {
    names: Vec<String>,
    values: Vec<Value>,
}

impl Scope {
    /// Names and values pair up, and no name appears twice.
    pub closed spec fn wf(&self) -> bool {
        &&& self.names.len() == self.values.len()
        &&& forall|i: int, j: int|
            0 <= i < self.names.len() && 0 <= j < self.names.len() && i != j ==> (
            #[trigger] self.names@[i])@ != (#[trigger] self.names@[j])@
    }

    spec fn holds(&self, i: int, k: Seq<char>) -> bool {
        0 <= i < self.names.len() && self.names@[i]@ == k
    }

    proof fn lemma_entry(&self, i: int)
        requires
            self.wf(),
            0 <= i < self.names.len(),
        ensures
            self@.contains_key(self.names@[i]@),
            self@[self.names@[i]@] == self.values@[i]@,
    {
        let k = self.names@[i]@;
        assert(self.holds(i, k));
        let j = choose|j: int| self.holds(j, k);
        assert(j == i);
    }

    /// An empty scope.
    pub fn new() -> (r: Scope)
        ensures
            r.wf(),
            r@ == Map::<Seq<char>, ValueModel>::empty(),
    {
        let r = Scope { names: Vec::new(), values: Vec::new() };
        assert(r@ =~= Map::<Seq<char>, ValueModel>::empty());
        r
    }

    fn find(&self, name: &String) -> (r: Option<usize>)
        requires
            self.wf(),
        ensures
            match r {
                Some(i) => i < self.names.len() && self.names@[i as int]@ == name@,
                None => !self@.contains_key(name@),
            },
    {
        let mut i: usize = 0;
        while i < self.names.len()
            invariant
                self.wf(),
                i <= self.names.len(),
                forall|j: int| 0 <= j < i ==> (#[trigger] self.names@[j])@ != name@,
            decreases self.names.len() - i,
        {
            if self.names[i] == *name {
                return Some(i);
            }
            i = i + 1;
        }
        assert(!self@.contains_key(name@)) by {
            if self@.contains_key(name@) {
                let j = choose|j: int| self.holds(j, name@);
                assert(self.names@[j]@ == name@);
            }
        }
        None
    }

    /// The value bound to `name`, if any.
    pub fn get(&self, name: &str) -> (r: Option<Value>)
        requires
            self.wf(),
        ensures
            match r {
                Some(v) => self@.contains_key(name@) && v@ == self@[name@],
                None => !self@.contains_key(name@),
            },
    {
        let key = String::from_str(name);
        match self.find(&key) {
            Some(i) => {
                proof {
                    self.lemma_entry(i as int);
                }
                Some(self.values[i].clone())
            },
            None => None,
        }
    }

    /// Binds `name` to `value`, replacing any earlier binding of it.
    pub fn set(&mut self, name: &str, value: Value)
        requires
            old(self).wf(),
        ensures
            final(self).wf(),
            final(self)@ == old(self)@.insert(name@, value@),
    {
        let key = String::from_str(name);
        let ghost k = key@;
        let ghost v = value@;
        let ghost before = self@;
        match self.find(&key) {
            Some(i) => {
                self.values.set(i, value);
                assert(self.wf());
                assert(self@ =~= before.insert(k, v)) by {
                    assert forall|x: Seq<char>| #[trigger] self@.contains_key(x) <==> before.insert(
                        k,
                        v,
                    ).contains_key(x) by {
                        if self@.contains_key(x) {
                            let j = choose|j: int| self.holds(j, x);
                            assert(old(self).holds(j, x));
                        }
                        if before.contains_key(x) {
                            let j = choose|j: int| old(self).holds(j, x);
                            assert(self.holds(j, x));
                        }
                        if x == k {
                            assert(self.holds(i as int, x));
                        }
                    }
                    assert forall|x: Seq<char>| #[trigger] self@.contains_key(x) implies self@[x]
                        == before.insert(k, v)[x] by {
                        let j = choose|j: int| self.holds(j, x);
                        self.lemma_entry(j);
                        if x != k {
                            old(self).lemma_entry(j);
                        }
                    }
                }
            },
            None => {
                assert forall|j: int| 0 <= j < old(self).names.len() implies (
                #[trigger] old(self).names@[j])@ != k by {
                    if old(self).names@[j]@ == k {
                        assert(old(self).holds(j, k));
                    }
                }
                self.names.push(key);
                self.values.push(value);
                let ghost n = self.names.len() - 1;
                assert(self.wf());
                assert(self@ =~= before.insert(k, v)) by {
                    assert forall|x: Seq<char>| #[trigger] self@.contains_key(x) <==> before.insert(
                        k,
                        v,
                    ).contains_key(x) by {
                        if self@.contains_key(x) {
                            let j = choose|j: int| self.holds(j, x);
                            if j < n {
                                assert(old(self).holds(j, x));
                            }
                        }
                        if before.contains_key(x) {
                            let j = choose|j: int| old(self).holds(j, x);
                            assert(self.holds(j, x));
                        }
                        if x == k {
                            assert(self.holds(n, x));
                        }
                    }
                    assert forall|x: Seq<char>| #[trigger] self@.contains_key(x) implies self@[x]
                        == before.insert(k, v)[x] by {
                        let j = choose|j: int| self.holds(j, x);
                        self.lemma_entry(j);
                        if x != k {
                            old(self).lemma_entry(j);
                        }
                    }
                }
            },
        }
    }
}

impl View for Scope {
    type V = Map<Seq<char>, ValueModel>;

    /// Each name bound, mapped to its value.
    closed spec fn view(&self) -> Map<Seq<char>, ValueModel> {
        Map::new(
            |k: Seq<char>| exists|i: int| self.holds(i, k),
            |k: Seq<char>| self.values@[choose|i: int| self.holds(i, k)]@,
        )
    }
}

} // verus!
