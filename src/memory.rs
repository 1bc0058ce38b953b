//! The variable store of one worker.
use vstd::prelude::*;

verus! {

/// Bindings from variable names to values; each name is bound at most once.
pub struct Memory {
    names: Vec<String>,
    values: Vec<u128>,
    model: Ghost<Map<Seq<char>, u128>>,
}

impl View for Memory {
    type V = Map<Seq<char>, u128>;

    closed spec fn view(&self) -> Map<Seq<char>, u128> {
        self.model@
    }
}

impl Memory {
    /// The vectors agree with the model, entry by entry.
    pub closed spec fn wf(&self) -> bool {
        &&& self.names@.len() == self.values@.len()
        &&& forall|i: int|
            0 <= i < self.names@.len() ==> self.model@.contains_key(#[trigger] self.names@[i]@)
                && self.model@[self.names@[i]@] == self.values@[i]
        &&& forall|i: int, j: int|
            0 <= i < j < self.names@.len() ==> #[trigger] self.names@[i]@ != #[trigger] self.names@[j]@
        &&& forall|k: Seq<char>|
            #[trigger] self.model@.contains_key(k) ==> exists|i: int|
                0 <= i < self.names@.len() && #[trigger] self.names@[i]@ == k
    }

    /// A store with no binding.
    pub fn new() -> (r: Self)
        ensures
            r.wf(),
            r@ == Map::<Seq<char>, u128>::empty(),
    {
        Memory { names: Vec::new(), values: Vec::new(), model: Ghost(Map::empty()) }
    }

    /// Where `name` is bound in the vectors, if it is.
    fn find(&self, name: &String) -> (r: Option<usize>)
        requires
            self.wf(),
        ensures
            match r {
                Some(i) => i < self.names@.len() && self.names@[i as int]@ == name@,
                None => forall|i: int| 0 <= i < self.names@.len() ==> self.names@[i]@ != name@,
            },
    {
        let mut i: usize = 0;
        while i < self.names.len()
            invariant
                i <= self.names@.len(),
                forall|j: int| 0 <= j < i ==> self.names@[j]@ != name@,
            decreases self.names.len() - i,
        {
            if self.names[i] == *name {
                return Some(i);
            }
            i = i + 1;
        }
        None
    }

    /// The value bound to `name`, if any.
    pub fn get(&self, name: &String) -> (r: Option<u128>)
        requires
            self.wf(),
        ensures
            match r {
                Some(v) => self@.contains_key(name@) && self@[name@] == v,
                None => !self@.contains_key(name@),
            },
    {
        match self.find(name) {
            Some(i) => Some(self.values[i]),
            None => None,
        }
    }

    /// Binds `name` to `value`, replacing any earlier binding of it.
    pub fn insert(&mut self, name: String, value: u128)
        requires
            old(self).wf(),
        ensures
            final(self).wf(),
            final(self)@ == old(self)@.insert(name@, value),
    {
        let ghost k = name@;
        let ghost m = self.model@.insert(k, value);
        match self.find(&name) {
            Some(i) => {
                self.values.set(i, value);
                self.model = Ghost(m);
                assert forall|kk: Seq<char>| #[trigger] m.contains_key(kk) implies exists|j: int|
                    0 <= j < self.names@.len() && #[trigger] self.names@[j]@ == kk by {
                    if kk == k {
                        assert(self.names@[i as int]@ == kk);
                    }
                }
            },
            None => {
                self.names.push(name);
                self.values.push(value);
                self.model = Ghost(m);
                let ghost last = (self.names@.len() - 1) as int;
                assert forall|kk: Seq<char>| #[trigger] m.contains_key(kk) implies exists|j: int|
                    0 <= j < self.names@.len() && #[trigger] self.names@[j]@ == kk by {
                    if kk == k {
                        assert(self.names@[last]@ == kk);
                    } else {
                        assert(old(self).model@.contains_key(kk));
                        let j = choose|j: int|
                            0 <= j < old(self).names@.len() && #[trigger] old(self).names@[j]@ == kk;
                        assert(self.names@[j]@ == kk);
                    }
                }
            },
        }
    }
}

} // verus!
