//! The functions that a script defines, kept by definition fingerprint.

use vstd::prelude::*;
use vstd::string::*;
use std::rc::Rc;
use crate::callable::{share, FnDef};
use crate::hash::{calc_def_hash, def_hash, names_of};
use crate::table::{find, get, has_key, insert, lemma_put_unique, model_of, put, unique};

verus! {

/// The table after every pair of `more` has been put into `table`, in order.
pub open spec fn put_all<A, V>(table: Seq<(A, V)>, more: Seq<(A, V)>) -> Seq<(A, V)>
    decreases more.len(),
{
    if more.len() == 0 {
        table
    } else {
        put(put_all(table, more.drop_last()), more.last().0, more.last().1)
    }
}

/// Putting pairs into a table without repeated keys repeats no key.
pub proof fn lemma_put_all_unique<A, V>(table: Seq<(A, V)>, more: Seq<(A, V)>)
    requires
        unique(table),
    ensures
        unique(put_all(table, more)),
    decreases more.len(),
{
    if more.len() > 0 {
        lemma_put_all_unique(table, more.drop_last());
        lemma_put_unique(put_all(table, more.drop_last()), more.last().0, more.last().1);
    }
}

/// The fingerprint under which a script function is kept: that of its name
/// and of the number of its parameters.
pub open spec fn fn_def_key(def: FnDef) -> u64 {
    def_hash(Seq::empty(), def.name@, def.params@.len() as usize)
}

/// A collection of script-defined functions. A function replaces an earlier
/// one of the same name and number of parameters.
pub struct FunctionsLib {
    defs: Vec<(u64, Rc<FnDef>)>,
}

impl View for FunctionsLib {
    type V = Seq<(u64, Rc<FnDef>)>;

    closed spec fn view(&self) -> Seq<(u64, Rc<FnDef>)> {
        self.defs@
    }
}

impl FunctionsLib {
    /// An empty collection.
    pub fn new() -> (lib: Self)
        ensures
            lib@ == Seq::<(u64, Rc<FnDef>)>::empty(),
            unique(lib@),
    {
        FunctionsLib { defs: Vec::new() }
    }

    /// The number of functions.
    pub fn len(&self) -> (n: usize)
        ensures
            n == self@.len(),
    {
        self.defs.len()
    }

    /// Is the collection empty?
    pub fn is_empty(&self) -> (b: bool)
        ensures
            b == (self@.len() == 0),
    {
        self.defs.len() == 0
    }

    /// The fingerprint and the definition at place `i`, in the order in which
    /// the fingerprints first came in.
    pub fn entry(&self, i: usize) -> (e: (u64, &FnDef))
        requires
            i < self@.len(),
        ensures
            e.0 == self@[i as int].0,
            *e.1 == *self@[i as int].1,
    {
        (self.defs[i].0, &*self.defs[i].1)
    }

    /// Another handle to the definition at place `i`.
    pub fn shared(&self, i: usize) -> (d: Rc<FnDef>)
        requires
            i < self@.len(),
        ensures
            d == self@[i as int].1,
    {
        share(&self.defs[i].1)
    }

    /// Adds a function and returns its fingerprint.
    pub fn add(&mut self, def: FnDef) -> (key: u64)
        ensures
            key == fn_def_key(def),
            final(self)@ == put(old(self)@, key, Rc::new(def)),
            unique(old(self)@) ==> unique(final(self)@),
    {
        proof {
            if unique(self@) {
                lemma_put_unique(self@, fn_def_key(def), Rc::new(def));
            }
        }
        let none: Vec<&str> = Vec::new();
        proof {
            assert(names_of(none@) =~= Seq::<Seq<char>>::empty());
            assert(model_of(self.defs@) =~= self.defs@);
        }
        let key = calc_def_hash(none.as_slice(), def.name.as_str(), def.params.len());
        insert(&mut self.defs, key, Rc::new(def));
        proof {
            assert(model_of(self.defs@) =~= self.defs@);
        }
        key
    }

    /// Is there a function under the fingerprint `key`?
    pub fn has_function(&self, key: u64) -> (b: bool)
        ensures
            b == has_key(self@, key),
    {
        proof {
            assert(model_of(self.defs@) =~= self.defs@);
        }
        find(&self.defs, &key).is_some()
    }

    /// The function under the fingerprint `key`.
    pub fn get_function(&self, key: u64) -> (r: Option<&FnDef>)
        ensures
            r == match get(self@, key) {
                Some(d) => Some(&*d),
                None => None,
            },
    {
        proof {
            assert(model_of(self.defs@) =~= self.defs@);
        }
        match find(&self.defs, &key) {
            Some(i) => Some(&*self.defs[i].1),
            None => None,
        }
    }

    /// The functions of `self` with those of `other` put on top: where both
    /// hold a fingerprint, the function of `other` stays.
    pub fn merge(&self, other: &FunctionsLib) -> (lib: FunctionsLib)
        ensures
            lib@ == put_all(self@, other@),
            unique(self@) ==> unique(lib@),
    {
        proof {
            if unique(self@) {
                lemma_put_all_unique(self@, other@);
            }
        }
        let mut defs: Vec<(u64, Rc<FnDef>)> = Vec::new();
        let mut i: usize = 0;
        while i < self.defs.len()
            invariant
                i <= self.defs@.len(),
                defs@ == self.defs@.subrange(0, i as int),
            decreases self.defs@.len() - i,
        {
            defs.push((self.defs[i].0, share(&self.defs[i].1)));
            proof {
                assert(defs@ =~= self.defs@.subrange(0, i as int + 1));
            }
            i += 1;
        }
        proof {
            assert(defs@ =~= self.defs@);
        }
        let mut j: usize = 0;
        while j < other.defs.len()
            invariant
                j <= other.defs@.len(),
                defs@ == put_all(self.defs@, other.defs@.subrange(0, j as int)),
            decreases other.defs@.len() - j,
        {
            proof {
                assert(model_of(defs@) =~= defs@);
                assert(other.defs@.subrange(0, j as int + 1).drop_last() =~= other.defs@.subrange(
                    0,
                    j as int,
                ));
            }
            insert(&mut defs, other.defs[j].0, share(&other.defs[j].1));
            proof {
                assert(model_of(defs@) =~= defs@);
            }
            j += 1;
        }
        proof {
            assert(other.defs@.subrange(0, other.defs@.len() as int) =~= other.defs@);
        }
        FunctionsLib { defs }
    }
}

impl Clone for FunctionsLib {
    /// A collection of handles to the same functions.
    fn clone(&self) -> (lib: Self)
        ensures
            lib@ == self@,
    {
        let empty = FunctionsLib::new();
        let lib = self.merge(&empty);
        lib
    }
}

} // verus!
