//! The mathematical model of a module: what its tables hold, and what
//! indexing makes of a tree of modules.

use vstd::prelude::*;
use vstd::string::*;
use std::rc::Rc;
use crate::callable::{CallableFunction, FnDef, IteratorFn};
use crate::dynamic::Dynamic;
use crate::hash::{def_hash, native_key};
use crate::fn_lib::{lemma_put_all_unique, put_all};
use crate::table::{get, has_key, lemma_put_unique, lemma_slot, put, slot, unique};
use crate::types::{FnAccess, TypeId};

verus! {

/// A native function as a module keeps it.
pub struct FuncInfoView {
    pub name: Seq<char>,
    pub access: FnAccess,
    pub params: Seq<TypeId>,
    pub func: CallableFunction,
}

/// The model of a module. The five tables are in the order in which their
/// keys first came in; the two indexes are maps from fingerprints.
#[verifier::ext_equal]
pub struct ModuleView {
    pub modules: Seq<(Seq<char>, ModuleView)>,
    pub variables: Seq<(Seq<char>, Dynamic)>,
    pub all_variables: Map<u64, Dynamic>,
    pub functions: Seq<(u64, FuncInfoView)>,
    pub fn_lib: Seq<(u64, Rc<FnDef>)>,
    pub type_iterators: Seq<(TypeId, IteratorFn)>,
    pub all_functions: Map<u64, CallableFunction>,
}

/// The qualifier that stands for the module on which indexing starts.
pub open spec fn root_path() -> Seq<Seq<char>> {
    seq!["root"@]
}

/// The map after the pairs have been written into `map` one after the other:
/// of two pairs with one key the later one stays.
pub open spec fn write_all<V>(map: Map<u64, V>, pairs: Seq<(u64, V)>) -> Map<u64, V>
    decreases pairs.len(),
{
    if pairs.len() == 0 {
        map
    } else {
        write_all(map, pairs.drop_last()).insert(pairs.last().0, pairs.last().1)
    }
}

/// The variables of one module under the path `path`: each with the
/// fingerprint of the path and its name.
pub open spec fn variable_pairs(variables: Seq<(Seq<char>, Dynamic)>, path: Seq<Seq<char>>) -> Seq<
    (u64, Dynamic),
> {
    Seq::new(variables.len(), |i: int| (def_hash(path, variables[i].0, 0), variables[i].1))
}

/// The public native functions of one module under the path `path`, each
/// with its qualified key. Private functions are left out.
pub open spec fn native_pairs(functions: Seq<(u64, FuncInfoView)>, path: Seq<Seq<char>>) -> Seq<
    (u64, CallableFunction),
>
    decreases functions.len(),
{
    if functions.len() == 0 {
        Seq::empty()
    } else {
        let before = native_pairs(functions.drop_last(), path);
        let info = functions.last().1;
        if info.access == FnAccess::Public {
            before.push((native_key(path, info.name, info.params), info.func))
        } else {
            before
        }
    }
}

/// The public script functions of one module under the path `path`, each
/// with the fingerprint of the path, its name and the number of its
/// parameters. Private functions are left out.
pub open spec fn script_pairs(fn_lib: Seq<(u64, Rc<FnDef>)>, path: Seq<Seq<char>>) -> Seq<
    (u64, CallableFunction),
>
    decreases fn_lib.len(),
{
    if fn_lib.len() == 0 {
        Seq::empty()
    } else {
        let before = script_pairs(fn_lib.drop_last(), path);
        let def = fn_lib.last().1;
        if def.access == FnAccess::Public {
            before.push(
                (
                    def_hash(path, def.name@, def.params@.len() as usize),
                    CallableFunction::Script(def),
                ),
            )
        } else {
            before
        }
    }
}

impl ModuleView {
    /// The module that holds nothing.
    pub open spec fn empty() -> ModuleView {
        ModuleView {
            modules: Seq::empty(),
            variables: Seq::empty(),
            all_variables: Map::empty(),
            functions: Seq::empty(),
            fn_lib: Seq::empty(),
            type_iterators: Seq::empty(),
            all_functions: Map::empty(),
        }
    }

    /// In each table of this module and of every module below it, no key
    /// occurs twice.
    pub open spec fn wf(self) -> bool
        decreases self,
    {
        &&& unique(self.modules)
        &&& unique(self.variables)
        &&& unique(self.functions)
        &&& unique(self.fn_lib)
        &&& unique(self.type_iterators)
        &&& forall|i: int| 0 <= i < self.modules.len() ==> (#[trigger] self.modules[i]).1.wf()
    }

    /// The variable named `name` of this module.
    pub open spec fn var(self, name: Seq<char>) -> Option<Dynamic> {
        get(self.variables, name)
    }

    /// The sub-module named `name`.
    pub open spec fn sub(self, name: Seq<char>) -> Option<ModuleView> {
        get(self.modules, name)
    }

    /// The native function kept under the fingerprint `key`.
    pub open spec fn native(self, key: u64) -> Option<FuncInfoView> {
        get(self.functions, key)
    }

    /// The iterator kept for the type `id`.
    pub open spec fn iter(self, id: TypeId) -> Option<IteratorFn> {
        get(self.type_iterators, id)
    }

    /// This module with the variable `name` set to `value`.
    pub open spec fn with_var(self, name: Seq<char>, value: Dynamic) -> ModuleView {
        ModuleView { variables: put(self.variables, name, value), ..self }
    }

    /// This module with the sub-module `name` set to `module`.
    pub open spec fn with_sub(self, name: Seq<char>, module: ModuleView) -> ModuleView {
        ModuleView { modules: put(self.modules, name, module), ..self }
    }

    /// This module with the native function `info` kept under `key`.
    pub open spec fn with_native(self, key: u64, info: FuncInfoView) -> ModuleView {
        ModuleView { functions: put(self.functions, key, info), ..self }
    }

    /// This module with the iterator `func` kept for the type `id`.
    pub open spec fn with_iter(self, id: TypeId, func: IteratorFn) -> ModuleView {
        ModuleView { type_iterators: put(self.type_iterators, id, func), ..self }
    }

    /// This module with the script functions of `lib` put on top of its own.
    pub open spec fn with_script_fns(self, lib: Seq<(u64, Rc<FnDef>)>) -> ModuleView {
        ModuleView { fn_lib: put_all(self.fn_lib, lib), ..self }
    }

    /// This module with `value` in the index of variables under `key`.
    pub open spec fn with_indexed_var(self, key: u64, value: Dynamic) -> ModuleView {
        ModuleView { all_variables: self.all_variables.insert(key, value), ..self }
    }

    /// What indexing records of variables when it walks this module under
    /// the path `path`, starting at its sub-module `i`: the variables of the
    /// sub-modules from `i` on, each walked under the path extended by its
    /// name, and then the variables of this module itself.
    pub open spec fn indexed_variables_from(self, path: Seq<Seq<char>>, i: int) -> Seq<
        (u64, Dynamic),
    >
        decreases self, self.modules.len() - i,
    {
        if 0 <= i < self.modules.len() {
            self.modules[i].1.indexed_variables_from(path.push(self.modules[i].0), 0)
                + self.indexed_variables_from(path, i + 1)
        } else {
            variable_pairs(self.variables, path)
        }
    }

    /// What indexing records of functions when it walks this module under
    /// the path `path`, starting at its sub-module `i`: the functions of the
    /// sub-modules from `i` on, and then the public native functions and the
    /// public script functions of this module itself.
    pub open spec fn indexed_functions_from(self, path: Seq<Seq<char>>, i: int) -> Seq<
        (u64, CallableFunction),
    >
        decreases self, self.modules.len() - i,
    {
        if 0 <= i < self.modules.len() {
            self.modules[i].1.indexed_functions_from(path.push(self.modules[i].0), 0)
                + self.indexed_functions_from(path, i + 1)
        } else {
            native_pairs(self.functions, path) + script_pairs(self.fn_lib, path)
        }
    }

    /// All the variables below this module, in the order in which indexing
    /// records them.
    pub open spec fn indexed_variables(self, path: Seq<Seq<char>>) -> Seq<(u64, Dynamic)> {
        self.indexed_variables_from(path, 0)
    }

    /// All the public functions below this module, in the order in which
    /// indexing records them.
    pub open spec fn indexed_functions(self, path: Seq<Seq<char>>) -> Seq<(u64, CallableFunction)> {
        self.indexed_functions_from(path, 0)
    }

    /// This module after indexing: the two indexes are built anew from the
    /// tables of the whole tree, the tables themselves stay.
    pub open spec fn indexed(self) -> ModuleView {
        ModuleView {
            all_variables: write_all(Map::empty(), self.indexed_variables(root_path())),
            all_functions: write_all(Map::empty(), self.indexed_functions(root_path())),
            ..self
        }
    }
}

/// Writing two runs of pairs one after the other is writing their
/// concatenation.
pub proof fn lemma_write_all_concat<V>(map: Map<u64, V>, first: Seq<(u64, V)>, second: Seq<(u64, V)>)
    ensures
        write_all(map, first + second) == write_all(write_all(map, first), second),
    decreases second.len(),
{
    if second.len() == 0 {
        assert(first + second =~= first);
    } else {
        lemma_write_all_concat(map, first, second.drop_last());
        assert((first + second).drop_last() =~= first + second.drop_last());
    }
}

/// Writing one more pair.
pub proof fn lemma_write_all_push<V>(map: Map<u64, V>, pairs: Seq<(u64, V)>, key: u64, value: V)
    ensures
        write_all(map, pairs.push((key, value))) == write_all(map, pairs).insert(key, value),
{
    assert(pairs.push((key, value)).drop_last() =~= pairs);
}

/// Setting a variable, a native function or an iterator, putting script
/// functions on top and indexing repeat no key.
pub proof fn lemma_tables_stay_unique(m: ModuleView)
    requires
        m.wf(),
    ensures
        forall|name: Seq<char>, value: Dynamic| (#[trigger] m.with_var(name, value)).wf(),
        forall|key: u64, info: FuncInfoView| (#[trigger] m.with_native(key, info)).wf(),
        forall|id: TypeId, func: IteratorFn| (#[trigger] m.with_iter(id, func)).wf(),
        forall|lib: Seq<(u64, Rc<FnDef>)>| (#[trigger] m.with_script_fns(lib)).wf(),
        forall|key: u64, value: Dynamic| (#[trigger] m.with_indexed_var(key, value)).wf(),
        m.indexed().wf(),
{
    assert forall|name: Seq<char>, value: Dynamic| (#[trigger] m.with_var(name, value)).wf() by {
        lemma_put_unique(m.variables, name, value);
    }
    assert forall|key: u64, info: FuncInfoView| (#[trigger] m.with_native(key, info)).wf() by {
        lemma_put_unique(m.functions, key, info);
    }
    assert forall|id: TypeId, func: IteratorFn| (#[trigger] m.with_iter(id, func)).wf() by {
        lemma_put_unique(m.type_iterators, id, func);
    }
    assert forall|lib: Seq<(u64, Rc<FnDef>)>| (#[trigger] m.with_script_fns(lib)).wf() by {
        lemma_put_all_unique(m.fn_lib, lib);
    }
}

/// Setting a sub-module that repeats no key repeats none.
pub proof fn lemma_sub_stays_unique(m: ModuleView, name: Seq<char>, sub: ModuleView)
    requires
        m.wf(),
        sub.wf(),
    ensures
        m.with_sub(name, sub).wf(),
{
    lemma_put_unique(m.modules, name, sub);
    lemma_slot(m.modules, name);
    let after = m.with_sub(name, sub);
    assert forall|i: int| 0 <= i < after.modules.len() implies (#[trigger] after.modules[i]).1.wf() by {
        if has_key(m.modules, name) {
            if i != slot(m.modules, name) {
                assert(after.modules[i] == m.modules[i]);
            }
        } else {
            if i < m.modules.len() {
                assert(after.modules[i] == m.modules[i]);
            }
        }
    }
}

/// A sub-module of a module that repeats no key repeats none.
pub proof fn lemma_sub_is_unique(m: ModuleView, name: Seq<char>)
    requires
        m.wf(),
        m.sub(name) is Some,
    ensures
        m.sub(name).unwrap().wf(),
{
    lemma_slot(m.modules, name);
    assert(m.modules[slot(m.modules, name)].1.wf());
}

} // verus!
