//! Laws of the tables: what is looked up after any run of settings.

use vstd::prelude::*;
use crate::dynamic::Dynamic;
use crate::fn_lib::put_all;
use crate::model::{FuncInfoView, ModuleView};
use crate::table::{get, lemma_get_put_other, lemma_get_put_same};

verus! {

/// After any run of settings, a key that was set holds the value of the last
/// setting of that key.
pub proof fn lemma_last_setting_stays<A, V>(table: Seq<(A, V)>, settings: Seq<(A, V)>, i: int)
    requires
        0 <= i < settings.len(),
        forall|j: int| i < j < settings.len() ==> (#[trigger] settings[j]).0 != settings[i].0,
    ensures
        get(put_all(table, settings), settings[i].0) == Some(settings[i].1),
    decreases settings.len(),
{
    let before = settings.drop_last();
    let last = settings.last();
    if i == settings.len() - 1 {
        lemma_get_put_same(put_all(table, before), last.0, last.1);
    } else {
        assert(before[i] == settings[i]);
        assert forall|j: int| i < j < before.len() implies (#[trigger] before[j]).0
            != before[i].0 by {
            assert(before[j] == settings[j]);
        }
        lemma_last_setting_stays(table, before, i);
        lemma_get_put_other(put_all(table, before), last.0, last.1, settings[i].0);
    }
}

/// A key that no setting names holds what it held before.
pub proof fn lemma_unset_key_stays<A, V>(table: Seq<(A, V)>, settings: Seq<(A, V)>, key: A)
    requires
        forall|j: int| 0 <= j < settings.len() ==> (#[trigger] settings[j]).0 != key,
    ensures
        get(put_all(table, settings), key) == get(table, key),
    decreases settings.len(),
{
    if settings.len() > 0 {
        let before = settings.drop_last();
        assert forall|j: int| 0 <= j < before.len() implies (#[trigger] before[j]).0 != key by {
            assert(before[j] == settings[j]);
        }
        lemma_unset_key_stays(table, before, key);
        lemma_get_put_other(put_all(table, before), settings.last().0, settings.last().1, key);
    }
}

/// One call that changes a table of a module: `set_var` with a name and a
/// value, or `set_fn` with the fingerprint it returns and what it keeps.
pub enum Setting {
    Var(Seq<char>, Dynamic),
    Native(u64, FuncInfoView),
}

/// The module after one setting.
pub open spec fn apply(m: ModuleView, setting: Setting) -> ModuleView {
    match setting {
        Setting::Var(name, value) => m.with_var(name, value),
        Setting::Native(key, info) => m.with_native(key, info),
    }
}

/// The module after the settings, made one after the other.
pub open spec fn apply_all(m: ModuleView, settings: Seq<Setting>) -> ModuleView
    decreases settings.len(),
{
    if settings.len() == 0 {
        m
    } else {
        apply(apply_all(m, settings.drop_last()), settings.last())
    }
}

/// After any run of `set_var` and `set_fn`, a variable that was set holds
/// the value that was set last for its name.
pub proof fn lemma_variable_holds_last_value(m: ModuleView, settings: Seq<Setting>, i: int)
    requires
        0 <= i < settings.len(),
        settings[i] is Var,
        forall|j: int|
            i < j < settings.len() && (#[trigger] settings[j]) is Var ==> settings[j]->Var_0
                != settings[i]->Var_0,
    ensures
        apply_all(m, settings).var(settings[i]->Var_0) == Some(settings[i]->Var_1),
    decreases settings.len(),
{
    let before = settings.drop_last();
    let name = settings[i]->Var_0;
    if i == settings.len() - 1 {
        lemma_get_put_same(apply_all(m, before).variables, name, settings[i]->Var_1);
    } else {
        assert(before[i] == settings[i]);
        assert forall|j: int| i < j < before.len() && (#[trigger] before[j]) is Var implies before[j]->Var_0
            != before[i]->Var_0 by {
            assert(before[j] == settings[j]);
        }
        lemma_variable_holds_last_value(m, before, i);
        assert(settings[settings.len() - 1] == settings.last());
        match settings.last() {
            Setting::Var(other, value) => {
                lemma_get_put_other(apply_all(m, before).variables, other, value, name);
            },
            Setting::Native(_, _) => {},
        }
    }
}

/// After any run of `set_var` and `set_fn`, a fingerprint that `set_fn`
/// returned holds the function that was kept last under it.
pub proof fn lemma_native_holds_last_function(m: ModuleView, settings: Seq<Setting>, i: int)
    requires
        0 <= i < settings.len(),
        settings[i] is Native,
        forall|j: int|
            i < j < settings.len() && (#[trigger] settings[j]) is Native ==> settings[j]->Native_0
                != settings[i]->Native_0,
    ensures
        apply_all(m, settings).native(settings[i]->Native_0) == Some(settings[i]->Native_1),
    decreases settings.len(),
{
    let before = settings.drop_last();
    let key = settings[i]->Native_0;
    if i == settings.len() - 1 {
        lemma_get_put_same(apply_all(m, before).functions, key, settings[i]->Native_1);
    } else {
        assert(before[i] == settings[i]);
        assert forall|j: int|
            i < j < before.len() && (#[trigger] before[j]) is Native implies before[j]->Native_0
            != before[i]->Native_0 by {
            assert(before[j] == settings[j]);
        }
        lemma_native_holds_last_function(m, before, i);
        assert(settings[settings.len() - 1] == settings.last());
        match settings.last() {
            Setting::Var(_, _) => {},
            Setting::Native(other, info) => {
                lemma_get_put_other(apply_all(m, before).functions, other, info, key);
            },
        }
    }
}

/// A name or a fingerprint that no setting of a run names holds what it
/// held before the run.
pub proof fn lemma_unset_stays(m: ModuleView, settings: Seq<Setting>, name: Seq<char>, key: u64)
    ensures
        (forall|j: int|
            0 <= j < settings.len() && (#[trigger] settings[j]) is Var ==> settings[j]->Var_0
                != name) ==> apply_all(m, settings).var(name) == m.var(name),
        (forall|j: int|
            0 <= j < settings.len() && (#[trigger] settings[j]) is Native ==> settings[j]->Native_0
                != key) ==> apply_all(m, settings).native(key) == m.native(key),
    decreases settings.len(),
{
    if settings.len() > 0 {
        let before = settings.drop_last();
        lemma_unset_stays(m, before, name, key);
        assert(settings[settings.len() - 1] == settings.last());
        if forall|j: int|
            0 <= j < settings.len() && (#[trigger] settings[j]) is Var ==> settings[j]->Var_0
                != name {
            assert forall|j: int| 0 <= j < before.len() && (#[trigger] before[j]) is Var implies before[j]->Var_0
                != name by {
                assert(before[j] == settings[j]);
            }
            if let Setting::Var(other, value) = settings.last() {
                lemma_get_put_other(apply_all(m, before).variables, other, value, name);
            }
        }
        if forall|j: int|
            0 <= j < settings.len() && (#[trigger] settings[j]) is Native ==> settings[j]->Native_0
                != key {
            assert forall|j: int|
                0 <= j < before.len() && (#[trigger] before[j]) is Native implies before[j]->Native_0
                != key by {
                assert(before[j] == settings[j]);
            }
            if let Setting::Native(other, info) = settings.last() {
                lemma_get_put_other(apply_all(m, before).functions, other, info, key);
            }
        }
    }
}

/// Changing a table leaves both indexes as they were: what is set after
/// indexing is not found through a qualified path until the module is
/// indexed again.
pub proof fn lemma_tables_do_not_touch_indexes(
    m: ModuleView,
    name: Seq<char>,
    value: Dynamic,
    sub: ModuleView,
    key: u64,
    info: FuncInfoView,
)
    ensures
        m.with_var(name, value).all_variables == m.all_variables,
        m.with_var(name, value).all_functions == m.all_functions,
        m.with_sub(name, sub).all_variables == m.all_variables,
        m.with_sub(name, sub).all_functions == m.all_functions,
        m.with_native(key, info).all_variables == m.all_variables,
        m.with_native(key, info).all_functions == m.all_functions,
{
}

} // verus!
