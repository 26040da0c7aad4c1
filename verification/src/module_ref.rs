//! Qualifier chains: the path of names in front of a qualified variable or
//! function, as a call site keeps it.

use vstd::prelude::*;
use vstd::string::*;
use crate::text::str_eq;
use crate::types::Position;

verus! {

/// The names of `names`, each followed by `::` but the last.
pub open spec fn joined(names: Seq<Seq<char>>) -> Seq<char>
    decreases names.len(),
{
    if names.len() == 0 {
        Seq::empty()
    } else if names.len() == 1 {
        names[0]
    } else {
        joined(names.drop_last()) + "::"@ + names.last()
    }
}

/// A chain of module names that qualifies a variable or a function, each
/// with the position at which it was written, and the place at which the
/// chain was last resolved, if it has been.
pub struct ModuleRef {
    path: Vec<(String, Position)>,
    index: Option<usize>,
}

/// The model of a qualifier chain.
pub struct ModuleRefView {
    pub names: Seq<Seq<char>>,
    pub positions: Seq<Position>,
    pub index: Option<usize>,
}

impl View for ModuleRef {
    type V = ModuleRefView;

    closed spec fn view(&self) -> ModuleRefView {
        ModuleRefView {
            names: Seq::new(self.path@.len(), |i: int| self.path@[i].0@),
            positions: Seq::new(self.path@.len(), |i: int| self.path@[i].1),
            index: self.index,
        }
    }
}

impl ModuleRef {
    /// The chain of the given names, not yet resolved.
    pub fn from(modules: Vec<(String, Position)>) -> (r: Self)
        ensures
            r@.names == Seq::new(modules@.len(), |i: int| modules@[i].0@),
            r@.positions == Seq::new(modules@.len(), |i: int| modules@[i].1),
            r@.index is None,
    {
        ModuleRef { path: modules, index: None }
    }

    /// The number of names in the chain.
    pub fn len(&self) -> (n: usize)
        ensures
            n == self@.names.len(),
            n == self@.positions.len(),
    {
        self.path.len()
    }

    /// The name at place `i`.
    pub fn name(&self, i: usize) -> (s: &str)
        requires
            i < self@.names.len(),
        ensures
            s@ == self@.names[i as int],
    {
        self.path[i].0.as_str()
    }

    /// Where the name at place `i` was written.
    pub fn position(&self, i: usize) -> (p: Position)
        requires
            i < self@.names.len(),
        ensures
            p == self@.positions[i as int],
    {
        self.path[i].1
    }

    /// The names of the chain, in order.
    pub fn names(&self) -> (v: Vec<&str>)
        ensures
            v@.len() == self@.names.len(),
            forall|i: int| 0 <= i < v@.len() ==> (#[trigger] v@[i])@ == self@.names[i],
    {
        let mut v: Vec<&str> = Vec::new();
        let mut i: usize = 0;
        while i < self.path.len()
            invariant
                i <= self.path@.len(),
                v@.len() == i,
                forall|j: int| 0 <= j < i ==> (#[trigger] v@[j])@ == self.path@[j].0@,
            decreases self.path@.len() - i,
        {
            v.push(self.path[i].0.as_str());
            i += 1;
        }
        v
    }

    /// The place at which the chain was last resolved.
    pub fn index(&self) -> (r: Option<usize>)
        ensures
            r == self@.index,
    {
        self.index
    }

    /// Records the place at which the chain was resolved, or forgets it.
    pub fn set_index(&mut self, index: Option<usize>)
        ensures
            final(self)@ == (ModuleRefView { index, ..old(self)@ }),
    {
        self.index = index;
    }

    /// The chain as it is written in a script: the names with `::` between
    /// them.
    pub fn to_string(&self) -> (s: String)
        ensures
            s@ == joined(self@.names),
    {
        let mut s = String::new();
        let mut i: usize = 0;
        while i < self.path.len()
            invariant
                i <= self.path@.len(),
                s@ == joined(self@.names.subrange(0, i as int)),
            decreases self.path@.len() - i,
        {
            let ghost before = self@.names.subrange(0, i as int);
            let ghost now = self@.names.subrange(0, i as int + 1);
            proof {
                assert(now.drop_last() =~= before);
                assert(now.last() == self.path@[i as int].0@);
            }
            if i > 0 {
                s.append("::");
            }
            s.append(self.path[i].0.as_str());
            proof {
                if i == 0 {
                    assert(s@ =~= now[0]);
                }
            }
            i += 1;
        }
        proof {
            assert(self@.names.subrange(0, self.path@.len() as int) =~= self@.names);
        }
        s
    }
}

impl Clone for ModuleRef {
    fn clone(&self) -> (r: Self)
        ensures
            r@ == self@,
    {
        let mut path: Vec<(String, Position)> = Vec::new();
        let mut i: usize = 0;
        while i < self.path.len()
            invariant
                i <= self.path@.len(),
                path@.len() == i,
                forall|j: int| 0 <= j < i ==> (#[trigger] path@[j]).0@ == self.path@[j].0@,
                forall|j: int| 0 <= j < i ==> (#[trigger] path@[j]).1 == self.path@[j].1,
            decreases self.path@.len() - i,
        {
            path.push((self.path[i].0.clone(), self.path[i].1));
            i += 1;
        }
        let r = ModuleRef { path, index: self.index };
        proof {
            assert(r@.names =~= self@.names);
            assert(r@.positions =~= self@.positions);
        }
        r
    }
}

impl PartialEq for ModuleRef {
    /// Two chains are equal when they hold the same names at the same
    /// positions and were resolved at the same place.
    fn eq(&self, other: &Self) -> (r: bool) {
        if self.path.len() != other.path.len() {
            proof {
                assert(self@.names.len() != other@.names.len());
            }
            return false;
        }
        let mut i: usize = 0;
        while i < self.path.len()
            invariant
                i <= self.path@.len(),
                self.path@.len() == other.path@.len(),
                forall|j: int| 0 <= j < i ==> (#[trigger] self.path@[j]).0@ == other.path@[j].0@,
                forall|j: int| 0 <= j < i ==> (#[trigger] self.path@[j]).1 == other.path@[j].1,
            decreases self.path@.len() - i,
        {
            if !str_eq(self.path[i].0.as_str(), other.path[i].0.as_str()) {
                proof {
                    assert(self@.names[i as int] != other@.names[i as int]);
                }
                return false;
            }
            if self.path[i].1 != other.path[i].1 {
                proof {
                    assert(self@.positions[i as int] != other@.positions[i as int]);
                }
                return false;
            }
            i += 1;
        }
        proof {
            assert(self@.names =~= other@.names);
            assert(self@.positions =~= other@.positions);
        }
        match (self.index, other.index) {
            (None, None) => true,
            (Some(a), Some(b)) => a == b,
            _ => false,
        }
    }
}

impl Eq for ModuleRef {

}

impl vstd::std_specs::cmp::PartialEqSpecImpl for ModuleRef {
    open spec fn obeys_eq_spec() -> bool {
        true
    }

    open spec fn eq_spec(&self, other: &Self) -> bool {
        self@ == other@
    }
}

impl Default for ModuleRef {
    /// The chain without names.
    fn default() -> (r: Self)
        ensures
            r@.names == Seq::<Seq<char>>::empty(),
            r@.positions == Seq::<Position>::empty(),
            r@.index is None,
    {
        let r = ModuleRef { path: Vec::new(), index: None };
        proof {
            assert(r@.names =~= Seq::<Seq<char>>::empty());
            assert(r@.positions =~= Seq::<Position>::empty());
        }
        r
    }
}

} // verus!
