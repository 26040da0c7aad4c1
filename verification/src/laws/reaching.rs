//! Laws of qualified paths: what is found through a chain of sub-module
//! names after indexing.

use vstd::prelude::*;
use crate::callable::CallableFunction;
use crate::dynamic::Dynamic;
use crate::hash::{def_hash, native_key};
use crate::laws::indexing::lemma_native_pairs_are_public;
use crate::laws::writing::{lemma_write_all_agreed, lemma_write_all_keys};
use crate::model::{native_pairs, root_path, script_pairs, variable_pairs, ModuleView};
use crate::table::{lemma_slot, slot};
use crate::types::FnAccess;

verus! {

/// The module that is reached from `m` through the sub-modules named by
/// `names`, one after the other; `None` where a name is not there.
pub open spec fn descend(m: ModuleView, names: Seq<Seq<char>>) -> Option<ModuleView>
    decreases names.len(),
{
    if names.len() == 0 {
        Some(m)
    } else {
        match m.sub(names[0]) {
            Some(child) => descend(child, names.drop_first()),
            None => None,
        }
    }
}

/// What is recorded for a module itself is part of what is recorded from
/// any of its sub-modules on.
proof fn lemma_own_variables_recorded(m: ModuleView, path: Seq<Seq<char>>, i: int, k: int)
    requires
        0 <= i,
        0 <= k < m.variables.len(),
    ensures
        m.indexed_variables_from(path, i).contains(variable_pairs(m.variables, path)[k]),
    decreases m.modules.len() - i,
{
    let own = variable_pairs(m.variables, path);
    if i < m.modules.len() {
        lemma_own_variables_recorded(m, path, i + 1, k);
        let first = m.modules[i].1.indexed_variables_from(path.push(m.modules[i].0), 0);
        let rest = m.indexed_variables_from(path, i + 1);
        let at = choose|at: int| 0 <= at < rest.len() && rest[at] == own[k];
        assert((first + rest)[first.len() + at] == own[k]);
    } else {
        assert(m.indexed_variables_from(path, i)[k] == own[k]);
    }
}

/// What is recorded for a sub-module is part of what is recorded for the
/// module, from that sub-module or an earlier one on.
proof fn lemma_sub_variables_recorded(
    m: ModuleView,
    path: Seq<Seq<char>>,
    i: int,
    j: int,
    pair: (u64, Dynamic),
)
    requires
        0 <= i <= j < m.modules.len(),
        m.modules[j].1.indexed_variables(path.push(m.modules[j].0)).contains(pair),
    ensures
        m.indexed_variables_from(path, i).contains(pair),
    decreases j - i,
{
    let first = m.modules[i].1.indexed_variables_from(path.push(m.modules[i].0), 0);
    let rest = m.indexed_variables_from(path, i + 1);
    if i == j {
        let at = choose|at: int| 0 <= at < first.len() && first[at] == pair;
        assert((first + rest)[at] == pair);
    } else {
        lemma_sub_variables_recorded(m, path, i + 1, j, pair);
        let at = choose|at: int| 0 <= at < rest.len() && rest[at] == pair;
        assert((first + rest)[first.len() + at] == pair);
    }
}

/// A variable of a module that is reached through a chain of sub-modules is
/// recorded under the fingerprint of the path, the chain and its name.
pub proof fn lemma_reached_variable_recorded(
    m: ModuleView,
    path: Seq<Seq<char>>,
    names: Seq<Seq<char>>,
    name: Seq<char>,
)
    requires
        descend(m, names) is Some,
        descend(m, names).unwrap().var(name) is Some,
    ensures
        m.indexed_variables(path).contains(
            (def_hash(path + names, name, 0), descend(m, names).unwrap().var(name).unwrap()),
        ),
    decreases names.len(),
{
    if names.len() == 0 {
        assert(path + names =~= path);
        lemma_slot(m.variables, name);
        let k = slot(m.variables, name);
        lemma_own_variables_recorded(m, path, 0, k);
    } else {
        let child = m.sub(names[0]).unwrap();
        lemma_slot(m.modules, names[0]);
        let j = slot(m.modules, names[0]);
        lemma_reached_variable_recorded(child, path.push(names[0]), names.drop_first(), name);
        assert(path.push(names[0]) + names.drop_first() =~= path + names);
        lemma_sub_variables_recorded(
            m,
            path,
            0,
            j,
            (def_hash(path + names, name, 0), descend(m, names).unwrap().var(name).unwrap()),
        );
    }
}

/// After indexing, a variable of a module that is reached from the indexed
/// module through a chain of sub-modules is in the index under the
/// fingerprint of `root`, the chain and its name; and it is found there with
/// its value unless a variable with another value has met it under that
/// fingerprint.
pub proof fn lemma_qualified_variable_found(m: ModuleView, names: Seq<Seq<char>>, name: Seq<char>)
    requires
        descend(m, names) is Some,
        descend(m, names).unwrap().var(name) is Some,
    ensures
        m.indexed().all_variables.contains_key(def_hash(root_path() + names, name, 0)),
        (forall|i: int|
            0 <= i < m.indexed_variables(root_path()).len() && (#[trigger] m.indexed_variables(
                root_path(),
            )[i]).0 == def_hash(root_path() + names, name, 0) ==> m.indexed_variables(
                root_path(),
            )[i].1 == descend(m, names).unwrap().var(name).unwrap())
            ==> m.indexed().all_variables[def_hash(root_path() + names, name, 0)] == descend(
            m,
            names,
        ).unwrap().var(name).unwrap(),
{
    let key = def_hash(root_path() + names, name, 0);
    let value = descend(m, names).unwrap().var(name).unwrap();
    let pairs = m.indexed_variables(root_path());
    lemma_reached_variable_recorded(m, root_path(), names, name);
    let at = choose|at: int| 0 <= at < pairs.len() && pairs[at] == (key, value);
    assert(pairs[at].0 == key);
    lemma_write_all_keys(Map::empty(), pairs, key);
    if forall|i: int| 0 <= i < pairs.len() && (#[trigger] pairs[i]).0 == key ==> pairs[i].1 == value {
        lemma_write_all_agreed(Map::empty(), pairs, key, value);
    }
}

/// What is recorded of functions for a module itself is part of what is
/// recorded from any of its sub-modules on.
proof fn lemma_own_functions_recorded(
    m: ModuleView,
    path: Seq<Seq<char>>,
    i: int,
    pair: (u64, CallableFunction),
)
    requires
        0 <= i,
        (native_pairs(m.functions, path) + script_pairs(m.fn_lib, path)).contains(pair),
    ensures
        m.indexed_functions_from(path, i).contains(pair),
    decreases m.modules.len() - i,
{
    if i < m.modules.len() {
        lemma_own_functions_recorded(m, path, i + 1, pair);
        let first = m.modules[i].1.indexed_functions_from(path.push(m.modules[i].0), 0);
        let rest = m.indexed_functions_from(path, i + 1);
        let at = choose|at: int| 0 <= at < rest.len() && rest[at] == pair;
        assert((first + rest)[first.len() + at] == pair);
    }
}

/// What is recorded of functions for a sub-module is part of what is
/// recorded for the module, from that sub-module or an earlier one on.
proof fn lemma_sub_functions_recorded(
    m: ModuleView,
    path: Seq<Seq<char>>,
    i: int,
    j: int,
    pair: (u64, CallableFunction),
)
    requires
        0 <= i <= j < m.modules.len(),
        m.modules[j].1.indexed_functions(path.push(m.modules[j].0)).contains(pair),
    ensures
        m.indexed_functions_from(path, i).contains(pair),
    decreases j - i,
{
    let first = m.modules[i].1.indexed_functions_from(path.push(m.modules[i].0), 0);
    let rest = m.indexed_functions_from(path, i + 1);
    if i == j {
        let at = choose|at: int| 0 <= at < first.len() && first[at] == pair;
        assert((first + rest)[at] == pair);
    } else {
        lemma_sub_functions_recorded(m, path, i + 1, j, pair);
        let at = choose|at: int| 0 <= at < rest.len() && rest[at] == pair;
        assert((first + rest)[first.len() + at] == pair);
    }
}

/// A public native function of a module that is reached through a chain of
/// sub-modules is recorded under its qualified key.
pub proof fn lemma_reached_native_recorded(
    m: ModuleView,
    path: Seq<Seq<char>>,
    names: Seq<Seq<char>>,
    handle: u64,
)
    requires
        descend(m, names) is Some,
        descend(m, names).unwrap().native(handle) is Some,
        descend(m, names).unwrap().native(handle).unwrap().access == FnAccess::Public,
    ensures
        m.indexed_functions(path).contains(
            (
                native_key(
                    path + names,
                    descend(m, names).unwrap().native(handle).unwrap().name,
                    descend(m, names).unwrap().native(handle).unwrap().params,
                ),
                descend(m, names).unwrap().native(handle).unwrap().func,
            ),
        ),
    decreases names.len(),
{
    let info = descend(m, names).unwrap().native(handle).unwrap();
    let pair = (native_key(path + names, info.name, info.params), info.func);
    if names.len() == 0 {
        assert(path + names =~= path);
        lemma_slot(m.functions, handle);
        let k = slot(m.functions, handle);
        assert(m.functions[k].1 == info);
        lemma_native_pairs_are_public(m.functions, path, pair);
        let natives = native_pairs(m.functions, path);
        let at = choose|at: int| 0 <= at < natives.len() && natives[at] == pair;
        assert((natives + script_pairs(m.fn_lib, path))[at] == pair);
        lemma_own_functions_recorded(m, path, 0, pair);
    } else {
        let child = m.sub(names[0]).unwrap();
        lemma_slot(m.modules, names[0]);
        let j = slot(m.modules, names[0]);
        lemma_reached_native_recorded(child, path.push(names[0]), names.drop_first(), handle);
        assert(path.push(names[0]) + names.drop_first() =~= path + names);
        lemma_sub_functions_recorded(m, path, 0, j, pair);
    }
}

/// After indexing, a public native function of a module that is reached
/// from the indexed module through a chain of sub-modules is in the index
/// under its qualified key; and the key resolves to that function unless
/// another function has met it under that key.
pub proof fn lemma_qualified_native_found(m: ModuleView, names: Seq<Seq<char>>, handle: u64)
    requires
        descend(m, names) is Some,
        descend(m, names).unwrap().native(handle) is Some,
        descend(m, names).unwrap().native(handle).unwrap().access == FnAccess::Public,
    ensures
        m.indexed().all_functions.contains_key(
            native_key(
                root_path() + names,
                descend(m, names).unwrap().native(handle).unwrap().name,
                descend(m, names).unwrap().native(handle).unwrap().params,
            ),
        ),
        (forall|i: int|
            0 <= i < m.indexed_functions(root_path()).len() && (#[trigger] m.indexed_functions(
                root_path(),
            )[i]).0 == native_key(
                root_path() + names,
                descend(m, names).unwrap().native(handle).unwrap().name,
                descend(m, names).unwrap().native(handle).unwrap().params,
            ) ==> m.indexed_functions(root_path())[i].1 == descend(m, names).unwrap().native(
                handle,
            ).unwrap().func) ==> m.indexed().all_functions[native_key(
            root_path() + names,
            descend(m, names).unwrap().native(handle).unwrap().name,
            descend(m, names).unwrap().native(handle).unwrap().params,
        )] == descend(m, names).unwrap().native(handle).unwrap().func,
{
    let info = descend(m, names).unwrap().native(handle).unwrap();
    let key = native_key(root_path() + names, info.name, info.params);
    let pairs = m.indexed_functions(root_path());
    lemma_reached_native_recorded(m, root_path(), names, handle);
    let at = choose|at: int| 0 <= at < pairs.len() && pairs[at] == (key, info.func);
    assert(pairs[at].0 == key);
    lemma_write_all_keys(Map::empty(), pairs, key);
    if forall|i: int| 0 <= i < pairs.len() && (#[trigger] pairs[i]).0 == key ==> pairs[i].1 == info.func {
        lemma_write_all_agreed(Map::empty(), pairs, key, info.func);
    }
}

} // verus!
