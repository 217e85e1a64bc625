//! A small executable set of variable names, abstracted as a `Set<Seq<char>>`.
//! Used for bound-variable tracking and free-variable results.

use vstd::prelude::*;

verus! {

/// A finite set of names. The representation may hold duplicates; the
/// abstraction is the set of name contents.
#[derive(Debug)]
pub struct VarSet {
    names: Vec<String>,
}

impl View for VarSet {
    type V = Set<Seq<char>>;

    closed spec fn view(&self) -> Set<Seq<char>> {
        Set::new(|s: Seq<char>| exists|i: int| 0 <= i < self.names@.len() && self.names@[i]@ == s)
    }
}

impl VarSet {
    pub fn new() -> (r: VarSet)
        ensures
            r@ == Set::<Seq<char>>::empty(),
    {
        let r = VarSet { names: Vec::new() };
        proof {
            assert(r@ =~= Set::<Seq<char>>::empty());
        }
        r
    }

    pub fn insert(&mut self, s: String)
        ensures
            final(self)@ == old(self)@.insert(s@),
    {
        let ghost sv = s@;
        let ghost before = self@;
        self.names.push(s);
        proof {
            assert forall|t: Seq<char>| self@.contains(t) implies before.insert(sv).contains(t) by {
                let i = choose|i: int| 0 <= i < self.names@.len() && self.names@[i]@ == t;
                if i < self.names@.len() - 1 {
                    assert(before.contains(t));
                }
            }
            assert forall|t: Seq<char>| before.insert(sv).contains(t) implies self@.contains(t) by {
                if t == sv {
                    assert(self.names@[self.names@.len() - 1]@ == t);
                } else {
                    let i = choose|i: int|
                        0 <= i < old(self).names@.len() && old(self).names@[i]@ == t;
                    assert(self.names@[i]@ == t);
                }
            }
            assert(self@ =~= before.insert(sv));
        }
    }

    pub fn contains(&self, s: &String) -> (r: bool)
        ensures
            r == self@.contains(s@),
    {
        let mut i: usize = 0;
        while i < self.names.len()
            invariant
                i <= self.names.len(),
                forall|j: int| 0 <= j < i ==> self.names@[j]@ != s@,
            decreases self.names.len() - i,
        {
            if self.names[i] == *s {
                return true;
            }
            i += 1;
        }
        false
    }

    /// A copy with the same contents.
    pub fn duplicate(&self) -> (r: VarSet)
        ensures
            r@ == self@,
    {
        let mut names: Vec<String> = Vec::new();
        let mut i: usize = 0;
        while i < self.names.len()
            invariant
                i <= self.names.len(),
                names@.len() == i,
                forall|j: int| 0 <= j < i ==> names@[j]@ == self.names@[j]@,
            decreases self.names.len() - i,
        {
            names.push(self.names[i].clone());
            i += 1;
        }
        let r = VarSet { names };
        proof {
            assert forall|t: Seq<char>| r@.contains(t) implies self@.contains(t) by {
                let j = choose|j: int| 0 <= j < r.names@.len() && r.names@[j]@ == t;
                assert(self.names@[j]@ == t);
            }
            assert forall|t: Seq<char>| self@.contains(t) implies r@.contains(t) by {
                let j = choose|j: int| 0 <= j < self.names@.len() && self.names@[j]@ == t;
                assert(r.names@[j]@ == t);
            }
            assert(r@ =~= self@);
        }
        r
    }

    /// Adds every name of `other` to `self`.
    pub fn union_with(&mut self, other: &VarSet)
        ensures
            final(self)@ == old(self)@ + other@,
    {
        let ghost before = self@;
        let mut i: usize = 0;
        while i < other.names.len()
            invariant
                i <= other.names.len(),
                self@ =~= before + Set::new(
                    |s: Seq<char>| exists|j: int| 0 <= j < i && other.names@[j]@ == s,
                ),
            decreases other.names.len() - i,
        {
            self.insert(other.names[i].clone());
            i += 1;
        }
        proof {
            assert(self@ =~= before + other@);
        }
    }

    /// The names present in both sets.
    pub fn intersect(&self, other: &VarSet) -> (r: VarSet)
        ensures
            r@ == self@.intersect(other@),
    {
        let mut r = VarSet::new();
        let mut i: usize = 0;
        while i < self.names.len()
            invariant
                i <= self.names.len(),
                r@ =~= Set::new(
                    |s: Seq<char>| exists|j: int|
                        0 <= j < i && self.names@[j]@ == s && other@.contains(s),
                ),
            decreases self.names.len() - i,
        {
            if other.contains(&self.names[i]) {
                r.insert(self.names[i].clone());
            }
            i += 1;
        }
        proof {
            assert(r@ =~= self@.intersect(other@));
        }
        r
    }
}

} // verus!
