//! Laws of indexing: what the indexes hold after a tree has been walked.

use vstd::prelude::*;
use vstd::string::*;
use std::rc::Rc;
use crate::callable::{CallableFunction, FnDef};
use crate::dynamic::Dynamic;
use crate::hash::{args_hash, def_hash, native_key};
use crate::laws::writing::{lemma_write_all_keys, lemma_written_value_was_written};
use crate::model::{
    native_pairs, root_path, script_pairs, variable_pairs, FuncInfoView, ModuleView,
};
use crate::types::{FnAccess, TypeId};

verus! {

/// What indexing records depends on the tables alone, not on what the
/// indexes held before.
pub proof fn lemma_walk_reads_tables(a: ModuleView, b: ModuleView, path: Seq<Seq<char>>, i: int)
    requires
        a.modules == b.modules,
        a.variables == b.variables,
        a.functions == b.functions,
        a.fn_lib == b.fn_lib,
    ensures
        a.indexed_variables_from(path, i) == b.indexed_variables_from(path, i),
        a.indexed_functions_from(path, i) == b.indexed_functions_from(path, i),
    decreases a.modules.len() - i,
{
    if 0 <= i < a.modules.len() {
        lemma_walk_reads_tables(a, b, path, i + 1);
    }
}

/// Indexing twice in a row gives what indexing once gives.
pub proof fn lemma_indexing_is_idempotent(m: ModuleView)
    ensures
        m.indexed().indexed() == m.indexed(),
        m.indexed().all_variables == m.indexed().indexed().all_variables,
        m.indexed().all_functions == m.indexed().indexed().all_functions,
{
    lemma_walk_reads_tables(m.indexed(), m, root_path(), 0);
}

/// Indexing leaves the tables as they are: what could be looked up by a
/// local name or handle before can be looked up after.
pub proof fn lemma_indexing_keeps_tables(m: ModuleView)
    ensures
        m.indexed().variables == m.variables,
        m.indexed().modules == m.modules,
        m.indexed().functions == m.functions,
        m.indexed().fn_lib == m.fn_lib,
        m.indexed().type_iterators == m.type_iterators,
{
}

/// Two native functions of one path, one name and as many parameters have
/// one qualified key exactly when the fingerprints of their parameter types
/// agree: overloads are told apart by the types of their arguments.
pub proof fn lemma_overloads_differ_by_argument_types(
    path: Seq<Seq<char>>,
    name: Seq<char>,
    first: Seq<TypeId>,
    second: Seq<TypeId>,
)
    requires
        first.len() == second.len(),
    ensures
        native_key(path, name, first) == native_key(path, name, second) <==> args_hash(first)
            == args_hash(second),
{
    let d = def_hash(path, name, first.len() as usize);
    let x = args_hash(first);
    let y = args_hash(second);
    assert((d ^ x == d ^ y) <==> x == y) by (bit_vector);
}

/// The definition half of a qualified key is found again from the key and
/// the argument half, and the other way round.
pub proof fn lemma_native_key_halves(path: Seq<Seq<char>>, name: Seq<char>, params: Seq<TypeId>)
    ensures
        native_key(path, name, params) ^ args_hash(params) == def_hash(
            path,
            name,
            params.len() as usize,
        ),
        native_key(path, name, params) ^ def_hash(path, name, params.len() as usize) == args_hash(
            params,
        ),
{
    let d = def_hash(path, name, params.len() as usize);
    let x = args_hash(params);
    assert((d ^ x) ^ x == d) by (bit_vector);
    assert((d ^ x) ^ d == x) by (bit_vector);
}

/// The pairs recorded for the native functions of a module are those of its
/// public functions: a private function adds none.
pub proof fn lemma_native_pairs_are_public(
    functions: Seq<(u64, FuncInfoView)>,
    path: Seq<Seq<char>>,
    pair: (u64, CallableFunction),
)
    ensures
        native_pairs(functions, path).contains(pair) <==> exists|k: int|
            0 <= k < functions.len() && (#[trigger] functions[k]).1.access == FnAccess::Public
                && pair == (
                native_key(path, functions[k].1.name, functions[k].1.params),
                functions[k].1.func,
            ),
    decreases functions.len(),
{
    if functions.len() > 0 {
        let before = functions.drop_last();
        let info = functions.last().1;
        let pairs = native_pairs(functions, path);
        lemma_native_pairs_are_public(before, path, pair);
        if native_pairs(before, path).contains(pair) {
            let at = choose|at: int|
                0 <= at < native_pairs(before, path).len() && native_pairs(before, path)[at] == pair;
            assert(pairs[at] == pair);
            let k = choose|k: int|
                0 <= k < before.len() && (#[trigger] before[k]).1.access == FnAccess::Public && pair
                    == (native_key(path, before[k].1.name, before[k].1.params), before[k].1.func);
            assert(functions[k] == before[k]);
        }
        if pairs.contains(pair) {
            let at = choose|at: int| 0 <= at < pairs.len() && pairs[at] == pair;
            if at < native_pairs(before, path).len() {
                assert(native_pairs(before, path)[at] == pair);
            } else {
                assert(functions[functions.len() - 1].1.access == FnAccess::Public);
            }
        }
        if exists|k: int|
            0 <= k < functions.len() && (#[trigger] functions[k]).1.access == FnAccess::Public
                && pair == (
                native_key(path, functions[k].1.name, functions[k].1.params),
                functions[k].1.func,
            ) {
            let k = choose|k: int|
                0 <= k < functions.len() && (#[trigger] functions[k]).1.access == FnAccess::Public
                    && pair == (
                    native_key(path, functions[k].1.name, functions[k].1.params),
                    functions[k].1.func,
                );
            if k < before.len() {
                assert(before[k] == functions[k]);
            } else {
                assert(pairs[pairs.len() - 1] == pair);
            }
        }
    }
}

/// The pairs recorded for the script functions of a module are those of its
/// public functions: a private function adds none.
pub proof fn lemma_script_pairs_are_public(
    fn_lib: Seq<(u64, Rc<FnDef>)>,
    path: Seq<Seq<char>>,
    pair: (u64, CallableFunction),
)
    ensures
        script_pairs(fn_lib, path).contains(pair) <==> exists|k: int|
            0 <= k < fn_lib.len() && (#[trigger] fn_lib[k]).1.access == FnAccess::Public && pair == (
                def_hash(path, fn_lib[k].1.name@, fn_lib[k].1.params@.len() as usize),
                CallableFunction::Script(fn_lib[k].1),
            ),
    decreases fn_lib.len(),
{
    if fn_lib.len() > 0 {
        let before = fn_lib.drop_last();
        let pairs = script_pairs(fn_lib, path);
        lemma_script_pairs_are_public(before, path, pair);
        if script_pairs(before, path).contains(pair) {
            let at = choose|at: int|
                0 <= at < script_pairs(before, path).len() && script_pairs(before, path)[at] == pair;
            assert(pairs[at] == pair);
            let k = choose|k: int|
                0 <= k < before.len() && (#[trigger] before[k]).1.access == FnAccess::Public && pair
                    == (
                    def_hash(path, before[k].1.name@, before[k].1.params@.len() as usize),
                    CallableFunction::Script(before[k].1),
                );
            assert(fn_lib[k] == before[k]);
        }
        if pairs.contains(pair) {
            let at = choose|at: int| 0 <= at < pairs.len() && pairs[at] == pair;
            if at < script_pairs(before, path).len() {
                assert(script_pairs(before, path)[at] == pair);
            } else {
                assert(fn_lib[fn_lib.len() - 1].1.access == FnAccess::Public);
            }
        }
        if exists|k: int|
            0 <= k < fn_lib.len() && (#[trigger] fn_lib[k]).1.access == FnAccess::Public && pair == (
                def_hash(path, fn_lib[k].1.name@, fn_lib[k].1.params@.len() as usize),
                CallableFunction::Script(fn_lib[k].1),
            ) {
            let k = choose|k: int|
                0 <= k < fn_lib.len() && (#[trigger] fn_lib[k]).1.access == FnAccess::Public && pair
                    == (
                    def_hash(path, fn_lib[k].1.name@, fn_lib[k].1.params@.len() as usize),
                    CallableFunction::Script(fn_lib[k].1),
                );
            if k < before.len() {
                assert(before[k] == fn_lib[k]);
            } else {
                assert(pairs[pairs.len() - 1] == pair);
            }
        }
    }
}

/// A pair is in the concatenation of two runs exactly when it is in one of
/// them.
proof fn lemma_concat_contains<T>(first: Seq<T>, second: Seq<T>, x: T)
    ensures
        (first + second).contains(x) <==> first.contains(x) || second.contains(x),
{
    let both = first + second;
    if first.contains(x) {
        let at = choose|at: int| 0 <= at < first.len() && first[at] == x;
        assert(both[at] == x);
    }
    if second.contains(x) {
        let at = choose|at: int| 0 <= at < second.len() && second[at] == x;
        assert(both[first.len() + at] == x);
    }
    if both.contains(x) {
        let at = choose|at: int| 0 <= at < both.len() && both[at] == x;
        if at < first.len() {
            assert(first[at] == x);
        } else {
            assert(second[at - first.len()] == x);
        }
    }
}

/// The pair belongs to a variable of the tree: to a variable of `m`, with
/// the fingerprint of `path` and its name, or to a variable of a module
/// below `m`, with the path extended by the names on the way down.
pub open spec fn variable_in_tree(m: ModuleView, path: Seq<Seq<char>>, pair: (u64, Dynamic)) -> bool
    decreases m,
{
    ||| exists|k: int|
        0 <= k < m.variables.len() && pair == (
            def_hash(path, (#[trigger] m.variables[k]).0, 0),
            m.variables[k].1,
        )
    ||| exists|i: int|
        0 <= i < m.modules.len() && variable_in_tree(
            (#[trigger] m.modules[i]).1,
            path.push(m.modules[i].0),
            pair,
        )
}

/// The pair belongs to a public function of the tree: to a public native
/// function of `m`, with its qualified key under `path`, to a public script
/// function of `m`, with the fingerprint of `path`, its name and the number
/// of its parameters, or to a public function of a module below `m`, with
/// the path extended by the names on the way down.
pub open spec fn function_in_tree(
    m: ModuleView,
    path: Seq<Seq<char>>,
    pair: (u64, CallableFunction),
) -> bool
    decreases m,
{
    ||| exists|k: int|
        0 <= k < m.functions.len() && (#[trigger] m.functions[k]).1.access == FnAccess::Public
            && pair == (
            native_key(path, m.functions[k].1.name, m.functions[k].1.params),
            m.functions[k].1.func,
        )
    ||| exists|k: int|
        0 <= k < m.fn_lib.len() && (#[trigger] m.fn_lib[k]).1.access == FnAccess::Public && pair
            == (
            def_hash(path, m.fn_lib[k].1.name@, m.fn_lib[k].1.params@.len() as usize),
            CallableFunction::Script(m.fn_lib[k].1),
        )
    ||| exists|i: int|
        0 <= i < m.modules.len() && function_in_tree(
            (#[trigger] m.modules[i]).1,
            path.push(m.modules[i].0),
            pair,
        )
}

/// What the walk records of variables from the sub-module `i` on is what
/// belongs to a variable of `m` itself or of the tree below one of the
/// sub-modules from `i` on.
proof fn lemma_variables_walked_from(
    m: ModuleView,
    path: Seq<Seq<char>>,
    i: int,
    pair: (u64, Dynamic),
)
    requires
        0 <= i,
    ensures
        m.indexed_variables_from(path, i).contains(pair) <==> (exists|k: int|
            0 <= k < m.variables.len() && pair == (
                def_hash(path, (#[trigger] m.variables[k]).0, 0),
                m.variables[k].1,
            )) || (exists|j: int|
            i <= j < m.modules.len() && variable_in_tree(
                (#[trigger] m.modules[j]).1,
                path.push(m.modules[j].0),
                pair,
            )),
    decreases m, m.modules.len() - i,
{
    let own = variable_pairs(m.variables, path);
    if i < m.modules.len() {
        let child = m.modules[i].1;
        let below = path.push(m.modules[i].0);
        let first = child.indexed_variables_from(below, 0);
        let rest = m.indexed_variables_from(path, i + 1);
        lemma_variables_walked_from(child, below, 0, pair);
        lemma_variables_walked_from(m, path, i + 1, pair);
        lemma_concat_contains(first, rest, pair);
        assert(first.contains(pair) <==> variable_in_tree(child, below, pair)) by {
            if exists|j: int|
                0 <= j < child.modules.len() && variable_in_tree(
                    (#[trigger] child.modules[j]).1,
                    below.push(child.modules[j].0),
                    pair,
                ) {
                let j = choose|j: int|
                    0 <= j < child.modules.len() && variable_in_tree(
                        (#[trigger] child.modules[j]).1,
                        below.push(child.modules[j].0),
                        pair,
                    );
                assert(0 <= j < child.modules.len() && variable_in_tree(
                    child.modules[j].1,
                    below.push(child.modules[j].0),
                    pair,
                ));
            }
        }
        if exists|j: int|
            i <= j < m.modules.len() && variable_in_tree(
                (#[trigger] m.modules[j]).1,
                path.push(m.modules[j].0),
                pair,
            ) {
            let j = choose|j: int|
                i <= j < m.modules.len() && variable_in_tree(
                    (#[trigger] m.modules[j]).1,
                    path.push(m.modules[j].0),
                    pair,
                );
            if j > i {
                assert(i + 1 <= j < m.modules.len() && variable_in_tree(
                    m.modules[j].1,
                    path.push(m.modules[j].0),
                    pair,
                ));
            }
        }
    } else {
        if own.contains(pair) {
            let k = choose|k: int| 0 <= k < own.len() && own[k] == pair;
            assert(pair == (def_hash(path, m.variables[k].0, 0), m.variables[k].1));
        }
        if exists|k: int|
            0 <= k < m.variables.len() && pair == (
                def_hash(path, (#[trigger] m.variables[k]).0, 0),
                m.variables[k].1,
            ) {
            let k = choose|k: int|
                0 <= k < m.variables.len() && pair == (
                    def_hash(path, (#[trigger] m.variables[k]).0, 0),
                    m.variables[k].1,
                );
            assert(own[k] == pair);
        }
    }
}

/// What the walk records of functions from the sub-module `i` on is what
/// belongs to a public function of `m` itself or of the tree below one of
/// the sub-modules from `i` on.
proof fn lemma_functions_walked_from(
    m: ModuleView,
    path: Seq<Seq<char>>,
    i: int,
    pair: (u64, CallableFunction),
)
    requires
        0 <= i,
    ensures
        m.indexed_functions_from(path, i).contains(pair) <==> (exists|k: int|
            0 <= k < m.functions.len() && (#[trigger] m.functions[k]).1.access == FnAccess::Public
                && pair == (
                native_key(path, m.functions[k].1.name, m.functions[k].1.params),
                m.functions[k].1.func,
            )) || (exists|k: int|
            0 <= k < m.fn_lib.len() && (#[trigger] m.fn_lib[k]).1.access == FnAccess::Public && pair
                == (
                def_hash(path, m.fn_lib[k].1.name@, m.fn_lib[k].1.params@.len() as usize),
                CallableFunction::Script(m.fn_lib[k].1),
            )) || (exists|j: int|
            i <= j < m.modules.len() && function_in_tree(
                (#[trigger] m.modules[j]).1,
                path.push(m.modules[j].0),
                pair,
            )),
    decreases m, m.modules.len() - i,
{
    if i < m.modules.len() {
        let child = m.modules[i].1;
        let below = path.push(m.modules[i].0);
        let first = child.indexed_functions_from(below, 0);
        let rest = m.indexed_functions_from(path, i + 1);
        lemma_functions_walked_from(child, below, 0, pair);
        lemma_functions_walked_from(m, path, i + 1, pair);
        lemma_concat_contains(first, rest, pair);
        assert(first.contains(pair) <==> function_in_tree(child, below, pair));
        if exists|j: int|
            i <= j < m.modules.len() && function_in_tree(
                (#[trigger] m.modules[j]).1,
                path.push(m.modules[j].0),
                pair,
            ) {
            let j = choose|j: int|
                i <= j < m.modules.len() && function_in_tree(
                    (#[trigger] m.modules[j]).1,
                    path.push(m.modules[j].0),
                    pair,
                );
            if j > i {
                assert(i + 1 <= j < m.modules.len() && function_in_tree(
                    m.modules[j].1,
                    path.push(m.modules[j].0),
                    pair,
                ));
            }
        }
    } else {
        lemma_concat_contains(native_pairs(m.functions, path), script_pairs(m.fn_lib, path), pair);
        lemma_native_pairs_are_public(m.functions, path, pair);
        lemma_script_pairs_are_public(m.fn_lib, path, pair);
    }
}

/// What indexing records of variables is what belongs to a variable of the
/// tree, no more and no less.
pub proof fn lemma_recorded_variables(m: ModuleView, path: Seq<Seq<char>>, pair: (u64, Dynamic))
    ensures
        m.indexed_variables(path).contains(pair) <==> variable_in_tree(m, path, pair),
{
    lemma_variables_walked_from(m, path, 0, pair);
}

/// What indexing records of functions is what belongs to a public function
/// of the tree, no more and no less: private functions are left out at
/// every depth.
pub proof fn lemma_recorded_functions(
    m: ModuleView,
    path: Seq<Seq<char>>,
    pair: (u64, CallableFunction),
)
    ensures
        m.indexed_functions(path).contains(pair) <==> function_in_tree(m, path, pair),
{
    lemma_functions_walked_from(m, path, 0, pair);
}

/// After indexing, what a fingerprint resolves to is a variable of the
/// tree with that fingerprint, and a fingerprint resolves exactly when the
/// tree has a variable with it.
pub proof fn lemma_index_of_variables(m: ModuleView, key: u64)
    ensures
        m.indexed().all_variables.contains_key(key) ==> variable_in_tree(
            m,
            root_path(),
            (key, m.indexed().all_variables[key]),
        ),
        m.indexed().all_variables.contains_key(key) <==> exists|value: Dynamic| #[trigger]
            variable_in_tree(m, root_path(), (key, value)),
{
    let pairs = m.indexed_variables(root_path());
    lemma_write_all_keys(Map::empty(), pairs, key);
    if m.indexed().all_variables.contains_key(key) {
        lemma_written_value_was_written(pairs, key);
        lemma_recorded_variables(m, root_path(), (key, m.indexed().all_variables[key]));
    }
    if exists|value: Dynamic| #[trigger] variable_in_tree(m, root_path(), (key, value)) {
        let value = choose|value: Dynamic| #[trigger] variable_in_tree(m, root_path(), (key, value));
        lemma_recorded_variables(m, root_path(), (key, value));
        let at = choose|at: int| 0 <= at < pairs.len() && pairs[at] == (key, value);
        assert(pairs[at].0 == key);
    }
}

/// After indexing, what a key resolves to is a public function of the tree
/// with that key, and a key resolves exactly when the tree has a public
/// function with it: a private function is found through no qualified
/// path.
pub proof fn lemma_index_of_functions(m: ModuleView, key: u64)
    ensures
        m.indexed().all_functions.contains_key(key) ==> function_in_tree(
            m,
            root_path(),
            (key, m.indexed().all_functions[key]),
        ),
        m.indexed().all_functions.contains_key(key) <==> exists|func: CallableFunction| #[trigger]
            function_in_tree(m, root_path(), (key, func)),
{
    let pairs = m.indexed_functions(root_path());
    lemma_write_all_keys(Map::empty(), pairs, key);
    if m.indexed().all_functions.contains_key(key) {
        lemma_written_value_was_written(pairs, key);
        lemma_recorded_functions(m, root_path(), (key, m.indexed().all_functions[key]));
    }
    if exists|func: CallableFunction| #[trigger] function_in_tree(m, root_path(), (key, func)) {
        let func = choose|func: CallableFunction| #[trigger]
            function_in_tree(m, root_path(), (key, func));
        lemma_recorded_functions(m, root_path(), (key, func));
        let at = choose|at: int| 0 <= at < pairs.len() && pairs[at] == (key, func);
        assert(pairs[at].0 == key);
    }
}

/// After indexing, a fingerprint under which no variable was recorded is not
/// in the index: a lookup with it fails.
pub proof fn lemma_unrecorded_variable_missing(m: ModuleView, key: u64)
    requires
        forall|i: int|
            0 <= i < m.indexed_variables(root_path()).len() ==> (#[trigger] m.indexed_variables(
                root_path(),
            )[i]).0 != key,
    ensures
        !m.indexed().all_variables.contains_key(key),
{
    lemma_write_all_keys(Map::empty(), m.indexed_variables(root_path()), key);
}

/// After indexing, a key under which no function was recorded is not in the
/// index: a lookup with it fails.
pub proof fn lemma_unrecorded_function_missing(m: ModuleView, key: u64)
    requires
        forall|i: int|
            0 <= i < m.indexed_functions(root_path()).len() ==> (#[trigger] m.indexed_functions(
                root_path(),
            )[i]).0 != key,
    ensures
        !m.indexed().all_functions.contains_key(key),
{
    lemma_write_all_keys(Map::empty(), m.indexed_functions(root_path()), key);
}

} // verus!
