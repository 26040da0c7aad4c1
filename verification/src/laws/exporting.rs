//! Laws of exporting: what the module made of a scope holds.

use vstd::prelude::*;
use crate::model::ModuleView;
use crate::scope::{exported, BindingView, EntryView};
use crate::table::{lemma_get_put_other, lemma_get_put_same, lemma_slot};

verus! {

/// What a scope exports holds a variable or a sub-module only under a name
/// that some entry has as its alias: a binding without an alias is in
/// neither table.
pub proof fn lemma_only_aliases_exported(entries: Seq<EntryView>, name: Seq<char>)
    requires
        forall|i: int| 0 <= i < entries.len() ==> (#[trigger] entries[i]).alias != Some(name),
    ensures
        exported(entries).var(name) is None,
        exported(entries).sub(name) is None,
    decreases entries.len(),
{
    if entries.len() == 0 {
        lemma_slot(ModuleView::empty().variables, name);
        lemma_slot(ModuleView::empty().modules, name);
    } else {
        let before = entries.drop_last();
        let entry = entries.last();
        assert forall|i: int| 0 <= i < before.len() implies (#[trigger] before[i]).alias != Some(
            name,
        ) by {
            assert(before[i] == entries[i]);
        }
        lemma_only_aliases_exported(before, name);
        assert(entries[entries.len() - 1].alias != Some(name));
        match entry.alias {
            None => {},
            Some(alias) => {
                match entry.value {
                    BindingView::Normal(v) => {
                        lemma_get_put_other(exported(before).variables, alias, v, name);
                    },
                    BindingView::Constant(v) => {
                        lemma_get_put_other(exported(before).variables, alias, v, name);
                    },
                    BindingView::Module(sub) => {
                        lemma_get_put_other(exported(before).modules, alias, sub, name);
                    },
                }
            },
        }
    }
}

/// What a scope exports under a name is what the last entry with that alias
/// binds: a later export shadows an earlier one of the same name and kind.
pub proof fn lemma_last_alias_exported(entries: Seq<EntryView>, i: int)
    requires
        0 <= i < entries.len(),
        entries[i].alias is Some,
        forall|j: int| i < j < entries.len() ==> (#[trigger] entries[j]).alias != entries[i].alias,
    ensures
        match entries[i].value {
            BindingView::Normal(v) => exported(entries).var(entries[i].alias.unwrap()) == Some(v),
            BindingView::Constant(v) => exported(entries).var(entries[i].alias.unwrap()) == Some(v),
            BindingView::Module(sub) => exported(entries).sub(entries[i].alias.unwrap()) == Some(
                sub,
            ),
        },
    decreases entries.len(),
{
    let before = entries.drop_last();
    let entry = entries.last();
    let name = entries[i].alias.unwrap();
    if i == entries.len() - 1 {
        match entry.value {
            BindingView::Normal(v) => {
                lemma_get_put_same(exported(before).variables, name, v);
            },
            BindingView::Constant(v) => {
                lemma_get_put_same(exported(before).variables, name, v);
            },
            BindingView::Module(sub) => {
                lemma_get_put_same(exported(before).modules, name, sub);
            },
        }
    } else {
        assert(before[i] == entries[i]);
        assert forall|j: int| i < j < before.len() implies (#[trigger] before[j]).alias
            != before[i].alias by {
            assert(before[j] == entries[j]);
        }
        lemma_last_alias_exported(before, i);
        assert(entries[entries.len() - 1].alias != entries[i].alias);
        match entry.alias {
            None => {},
            Some(alias) => {
                match entry.value {
                    BindingView::Normal(v) => {
                        lemma_get_put_other(exported(before).variables, alias, v, name);
                    },
                    BindingView::Constant(v) => {
                        lemma_get_put_other(exported(before).variables, alias, v, name);
                    },
                    BindingView::Module(sub) => {
                        lemma_get_put_other(exported(before).modules, alias, sub, name);
                    },
                }
            },
        }
    }
}

} // verus!
