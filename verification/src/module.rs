//! Modules: namespaces of variables, sub-modules, functions and type
//! iterators, with the indexes that answer qualified lookups.

use vstd::prelude::*;
use vstd::slice::slice_to_vec;
use vstd::string::*;
use std::collections::hash_map::Entry;
use std::collections::HashMap;
use crate::callable::{share, CallableFunction, IteratorFn};
use crate::dynamic::{Dynamic, Variant};
use crate::error::EvalAltResult;
use crate::fn_lib::FunctionsLib;
use crate::hash::{calc_def_hash, calc_native_key, def_hash, names_of};
use crate::model::{
    lemma_sub_is_unique, lemma_sub_stays_unique, lemma_tables_stay_unique, lemma_write_all_concat,
    lemma_write_all_push, native_pairs, root_path, script_pairs, variable_pairs, write_all,
    FuncInfoView, ModuleView,
};
use crate::table::{
    find, get, has_key, insert, lemma_map_table_keys, lemma_map_table_put, lemma_slot, lookup,
    lookup_mut, map_table, model_of, put, slot,
};
use crate::types::{FnAccess, Position, TypeId};

verus! {

/// A native function as a module keeps it: its name, who may call it, the
/// types of its parameters, and the function itself.
pub struct FuncInfo {
    pub name: String,
    pub access: FnAccess,
    pub params: Vec<TypeId>,
    pub func: CallableFunction,
}

impl View for FuncInfo {
    type V = FuncInfoView;

    open spec fn view(&self) -> FuncInfoView {
        FuncInfoView {
            name: self.name@,
            access: self.access,
            params: self.params@,
            func: self.func,
        }
    }
}

/// A namespace: variables, sub-modules, native functions, script functions
/// and type iterators, and the two indexes over the whole tree below it.
///
/// The indexes are as the last call of `index_all_sub_modules` left them;
/// changing a table does not touch them.
pub struct Module {
    modules: Vec<(String, Module)>,
    variables: Vec<(String, Dynamic)>,
    all_variables: HashMap<u64, Dynamic>,
    functions: Vec<(u64, FuncInfo)>,
    fn_lib: FunctionsLib,
    type_iterators: Vec<(TypeId, IteratorFn)>,
    all_functions: HashMap<u64, CallableFunction>,
}

impl Module {
    /// The models of the first `n` sub-modules, each with its name.
    closed spec fn sub_models(&self, n: nat) -> Seq<(Seq<char>, ModuleView)>
        decreases self, 0nat, n,
    {
        if n == 0 || n > self.modules@.len() {
            Seq::empty()
        } else {
            self.sub_models((n - 1) as nat).push(
                (self.modules@[n - 1].0@, self.modules@[n - 1].1.model()),
            )
        }
    }

    /// The function that takes a module to its model.
    pub closed spec fn modeler() -> spec_fn(Module) -> ModuleView {
        |m: Module| m.model()
    }

    /// The model of the module.
    pub closed spec fn model(&self) -> ModuleView
        decreases self, 1nat, 0nat,
    {
        ModuleView {
            modules: self.sub_models(self.modules@.len()),
            variables: model_of(self.variables@),
            all_variables: self.all_variables@,
            functions: map_table(model_of(self.functions@), |f: FuncInfo| f@),
            fn_lib: self.fn_lib@,
            type_iterators: model_of(self.type_iterators@),
            all_functions: self.all_functions@,
        }
    }
}

impl View for Module {
    type V = ModuleView;

    open spec fn view(&self) -> ModuleView {
        self.model()
    }
}

impl Module {
    /// `modeler` takes a module to its model.
    pub proof fn lemma_modeler(m: Module)
        ensures
            (Module::modeler())(m) == m@,
    {
    }

    /// The sub-modules of the model are the models of the sub-modules.
    proof fn lemma_sub_models(&self, n: nat)
        requires
            n <= self.modules@.len(),
        ensures
            self.sub_models(n) == map_table(model_of(self.modules@), Module::modeler()).subrange(
                0,
                n as int,
            ),
        decreases n,
    {
        let all = map_table(model_of(self.modules@), Module::modeler());
        if n == 0 {
            assert(self.sub_models(n) =~= all.subrange(0, 0));
        } else {
            self.lemma_sub_models((n - 1) as nat);
            assert(self.sub_models(n) =~= all.subrange(0, n as int));
        }
    }

    /// The sub-module table of the model, read off the vector that holds it.
    proof fn lemma_modules_model(&self)
        ensures
            self@.modules == map_table(model_of(self.modules@), Module::modeler()),
    {
        self.lemma_sub_models(self.modules@.len());
        let all = map_table(model_of(self.modules@), Module::modeler());
        assert(all.subrange(0, self.modules@.len() as int) =~= all);
    }

    /// Creates an empty module.
    pub fn new() -> (m: Self)
        ensures
            m@ == ModuleView::empty(),
            m@.wf(),
    {
        let m = Module {
            modules: Vec::new(),
            variables: Vec::new(),
            all_variables: HashMap::new(),
            functions: Vec::new(),
            fn_lib: FunctionsLib::new(),
            type_iterators: Vec::new(),
            all_functions: HashMap::new(),
        };
        proof {
            assert(m@ =~= ModuleView::empty());
        }
        m
    }

    /// Creates an empty module with room for `capacity` native functions.
    pub fn new_with_capacity(capacity: usize) -> (m: Self)
        ensures
            m@ == ModuleView::empty(),
            m@.wf(),
    {
        let m = Module {
            modules: Vec::new(),
            variables: Vec::new(),
            all_variables: HashMap::new(),
            functions: Vec::with_capacity(capacity),
            fn_lib: FunctionsLib::new(),
            type_iterators: Vec::new(),
            all_functions: HashMap::new(),
        };
        proof {
            assert(m@ =~= ModuleView::empty());
        }
        m
    }

    /// The variables of the module, in the order in which their names first
    /// came in.
    pub fn variables(&self) -> (list: Vec<(String, Dynamic)>)
        ensures
            model_of(list@) == self@.variables,
    {
        let mut list: Vec<(String, Dynamic)> = Vec::new();
        let mut i: usize = 0;
        while i < self.variables.len()
            invariant
                i <= self.variables@.len(),
                list@.len() == i,
                forall|j: int|
                    0 <= j < i ==> (#[trigger] list@[j]).0@ == self.variables@[j].0@ && list@[j].1
                        == self.variables@[j].1,
            decreases self.variables@.len() - i,
        {
            list.push((self.variables[i].0.clone(), self.variables[i].1.clone()));
            i += 1;
        }
        proof {
            assert(model_of(list@) =~= self@.variables);
        }
        list
    }

    /// The number of native functions that the module holds itself.
    pub fn fn_count(&self) -> (n: usize)
        ensures
            n == self@.functions.len(),
    {
        self.functions.len()
    }

    /// The number of script functions that the module holds itself.
    pub fn script_fn_count(&self) -> (n: usize)
        ensures
            n == self@.fn_lib.len(),
    {
        self.fn_lib.len()
    }

    /// Does the module hold a variable named `name`? Sub-modules and the
    /// index are not looked at.
    pub fn contains_var(&self, name: &str) -> (b: bool)
        ensures
            b == self@.var(name@).is_some(),
    {
        find(&self.variables, name).is_some()
    }

    /// The value of the variable named `name`.
    pub fn get_var(&self, name: &str) -> (r: Option<Dynamic>)
        ensures
            r == self@.var(name@),
    {
        match lookup(&self.variables, name) {
            Some(v) => Some(v.clone()),
            None => None,
        }
    }

    /// The value of the variable named `name` as a `T`: `None` where there is
    /// no such variable or its value has another type.
    pub fn get_var_value<T: Variant>(&self, name: &str) -> (r: Option<T>)
        ensures
            r is Some <==> self@.var(name@) is Some && self@.var(name@).unwrap().type_token()
                == T::token(),
            r is Some ==> r.unwrap().wrap() == self@.var(name@).unwrap(),
    {
        match self.get_var(name) {
            Some(v) => v.try_cast::<T>(),
            None => None,
        }
    }

    /// Sets the variable named `name` to `value`, in place of an earlier
    /// value where there is one. The index is left as it is.
    pub fn set_var<T: Variant>(&mut self, name: &str, value: T)
        ensures
            final(self)@ == old(self)@.with_var(name@, value.wrap()),
            old(self)@.wf() ==> final(self)@.wf(),
    {
        self.set_dynamic(name, Dynamic::from(value));
    }

    /// Sets the variable named `name` to the dynamic value `value`, in place
    /// of an earlier value where there is one. The index is left as it is.
    pub fn set_dynamic(&mut self, name: &str, value: Dynamic)
        ensures
            final(self)@ == old(self)@.with_var(name@, value),
            old(self)@.wf() ==> final(self)@.wf(),
    {
        proof {
            if old(self)@.wf() {
                lemma_tables_stay_unique(old(self)@);
            }
        }
        let key = name.to_owned();
        insert(&mut self.variables, key, value);
        proof {
            self.lemma_modules_model();
            old(self).lemma_modules_model();
            assert(self@ =~= old(self)@.with_var(name@, value));
        }
    }

    /// Does the module hold a sub-module named `name`?
    pub fn contains_sub_module(&self, name: &str) -> (b: bool)
        ensures
            b == self@.sub(name@).is_some(),
    {
        proof {
            self.lemma_modules_model();
            lemma_map_table_keys(model_of(self.modules@), Module::modeler(), name@);
        }
        find(&self.modules, name).is_some()
    }

    /// The sub-module named `name`.
    pub fn get_sub_module(&self, name: &str) -> (r: Option<&Module>)
        ensures
            match r {
                Some(m) => self@.sub(name@) == Some(m@) && (self@.wf() ==> m@.wf()),
                None => self@.sub(name@) is None,
            },
    {
        proof {
            if self@.wf() && self@.sub(name@) is Some {
                lemma_sub_is_unique(self@, name@);
            }
            self.lemma_modules_model();
            lemma_map_table_keys(model_of(self.modules@), Module::modeler(), name@);
        }
        lookup(&self.modules, name)
    }

    /// The sub-module named `name`, to be changed in place: what the caller
    /// makes of it is what this module then holds under that name.
    pub fn get_sub_module_mut(&mut self, name: &str) -> (r: Option<&mut Module>)
        ensures
            match r {
                Some(m) => {
                    &&& old(self)@.sub(name@) == Some(m@)
                    &&& final(self)@ == old(self)@.with_sub(name@, final(m)@)
                    &&& old(self)@.wf() ==> m@.wf()
                    &&& old(self)@.wf() && final(m)@.wf() ==> final(self)@.wf()
                },
                None => old(self)@.sub(name@) is None && final(self)@ == old(self)@,
            },
    {
        proof {
            if self@.wf() {
                if self@.sub(name@) is Some {
                    lemma_sub_is_unique(self@, name@);
                }
                assert forall|sub: ModuleView| sub.wf() implies (#[trigger] self@.with_sub(
                    name@,
                    sub,
                )).wf() by {
                    lemma_sub_stays_unique(self@, name@, sub);
                }
            }
            let entries = self.modules@;
            let table = model_of(entries);
            let i = slot(table, name@);
            self.lemma_modules_model();
            lemma_map_table_keys(table, Module::modeler(), name@);
            lemma_slot(table, name@);
            assert forall|m: Module| #[trigger]
                m.model().modules == map_table(model_of(m.modules@), Module::modeler()) by {
                m.lemma_modules_model();
            }
            assert forall|v: Module| has_key(table, name@) implies model_of(
                #[trigger] entries.update(i, (entries[i].0, v)),
            ) == put(table, name@, v) by {
                assert(model_of(entries.update(i, (entries[i].0, v))) =~= put(table, name@, v));
            }
            assert forall|v: Module| #[trigger]
                map_table(put(table, name@, v), Module::modeler()) == put(
                    map_table(table, Module::modeler()),
                    name@,
                    v.model(),
                ) by {
                lemma_map_table_put(table, Module::modeler(), name@, v);
            }
        }
        lookup_mut(&mut self.modules, name)
    }

    /// Sets the sub-module named `name` to `sub_module`, in place of an
    /// earlier one where there is one: the two are not merged.
    pub fn set_sub_module(&mut self, name: &str, sub_module: Module)
        ensures
            final(self)@ == old(self)@.with_sub(name@, sub_module@),
            old(self)@.wf() && sub_module@.wf() ==> final(self)@.wf(),
    {
        proof {
            if old(self)@.wf() && sub_module@.wf() {
                lemma_sub_stays_unique(old(self)@, name@, sub_module@);
            }
        }
        let key = name.to_owned();
        insert(&mut self.modules, key, sub_module);
        proof {
            self.lemma_modules_model();
            old(self).lemma_modules_model();
            lemma_map_table_put(
                model_of(old(self).modules@),
                Module::modeler(),
                name@,
                sub_module,
            );
            assert(self@ =~= old(self)@.with_sub(name@, sub_module@));
        }
    }

    /// Does the module hold a native function under the fingerprint
    /// `hash_fn`, as `set_fn` returned it?
    pub fn contains_fn(&self, hash_fn: u64) -> (b: bool)
        ensures
            b == self@.native(hash_fn).is_some(),
    {
        proof {
            lemma_map_table_keys(model_of(self.functions@), |f: FuncInfo| f@, hash_fn);
        }
        find(&self.functions, &hash_fn).is_some()
    }

    /// Keeps a native function in the module and returns the fingerprint
    /// under which it is kept: that of its name and of the number of its
    /// parameters. An earlier function under that fingerprint is replaced.
    pub fn set_fn(
        &mut self,
        name: &str,
        access: FnAccess,
        params: &[TypeId],
        func: CallableFunction,
    ) -> (hash_fn: u64)
        ensures
            hash_fn == def_hash(Seq::empty(), name@, params@.len() as usize),
            final(self)@ == old(self)@.with_native(
                hash_fn,
                FuncInfoView { name: name@, access, params: params@, func },
            ),
            old(self)@.wf() ==> final(self)@.wf(),
    {
        proof {
            if old(self)@.wf() {
                lemma_tables_stay_unique(old(self)@);
            }
        }
        let none: Vec<&str> = Vec::new();
        proof {
            assert(names_of(none@) =~= Seq::<Seq<char>>::empty());
        }
        let hash_fn = calc_def_hash(none.as_slice(), name, params.len());
        let info = FuncInfo { name: name.to_owned(), access, params: slice_to_vec(params), func };
        insert(&mut self.functions, hash_fn, info);
        proof {
            self.lemma_modules_model();
            old(self).lemma_modules_model();
            lemma_map_table_put(model_of(old(self).functions@), |f: FuncInfo| f@, hash_fn, info);
            assert(self@ =~= old(self)@.with_native(hash_fn, info@));
        }
        hash_fn
    }

    /// The native function kept under the fingerprint `hash_fn`.
    pub fn get_fn(&self, hash_fn: u64) -> (r: Option<&CallableFunction>)
        ensures
            r == match self@.native(hash_fn) {
                Some(info) => Some(&info.func),
                None => None,
            },
    {
        proof {
            lemma_map_table_keys(model_of(self.functions@), |f: FuncInfo| f@, hash_fn);
        }
        match lookup(&self.functions, &hash_fn) {
            Some(info) => Some(&info.func),
            None => None,
        }
    }

    /// Puts the script functions of `lib` on top of those that the module
    /// holds: a function of `lib` replaces one of the same name and number
    /// of parameters.
    pub fn merge_fn_lib(&mut self, lib: &FunctionsLib)
        ensures
            final(self)@ == old(self)@.with_script_fns(lib@),
            old(self)@.wf() ==> final(self)@.wf(),
    {
        proof {
            if old(self)@.wf() {
                lemma_tables_stay_unique(old(self)@);
            }
        }
        let merged = self.fn_lib.merge(lib);
        self.fn_lib = merged;
        proof {
            self.lemma_modules_model();
            old(self).lemma_modules_model();
        }
    }

    /// Does the module hold an iterator for the type `id`?
    pub fn contains_iter(&self, id: TypeId) -> (b: bool)
        ensures
            b == self@.iter(id).is_some(),
    {
        find(&self.type_iterators, &id).is_some()
    }

    /// Keeps `func` as the iterator for the type `typ`, in place of an
    /// earlier one where there is one.
    pub fn set_iter(&mut self, typ: TypeId, func: IteratorFn)
        ensures
            final(self)@ == old(self)@.with_iter(typ, func),
            old(self)@.wf() ==> final(self)@.wf(),
    {
        proof {
            if old(self)@.wf() {
                lemma_tables_stay_unique(old(self)@);
            }
        }
        insert(&mut self.type_iterators, typ, func);
        proof {
            self.lemma_modules_model();
            old(self).lemma_modules_model();
            assert(self@ =~= old(self)@.with_iter(typ, func));
        }
    }

    /// The iterator kept for the type `id`.
    pub fn get_iter(&self, id: TypeId) -> (r: Option<IteratorFn>)
        ensures
            r == self@.iter(id),
    {
        match lookup(&self.type_iterators, &id) {
            Some(f) => Some(share(f)),
            None => None,
        }
    }
}

/// The value that `map` holds for `key`, to be changed in place: `None`
/// where the key is not in the map, which then stays as it is; else the
/// value, and what the caller makes of it is what the map then holds for the
/// key. No other key is touched.
fn value_mut<'a>(map: &'a mut HashMap<u64, Dynamic>, key: u64) -> (r: Option<&'a mut Dynamic>)
    ensures
        match r {
            Some(v) => old(map)@.contains_key(key) && *v == old(map)@[key] && final(map)@ == old(
                map,
            )@.insert(key, *final(v)),
            None => !old(map)@.contains_key(key) && final(map)@ == old(map)@,
        },
{
    match map.entry(key) {
        Entry::Occupied(found) => Some(found.into_mut()),
        Entry::Vacant(_) => None,
    }
}

/// Walks `module` and the modules below it and writes what indexing records
/// into the two maps: the variables and the public functions of each module,
/// under fingerprints that hold the path to it. `qualifiers` is the path to
/// `module`; it is extended on the way down and restored on the way up.
fn index_module<'a>(
    module: &'a Module,
    qualifiers: &mut Vec<&'a str>,
    variables: &mut HashMap<u64, Dynamic>,
    functions: &mut HashMap<u64, CallableFunction>,
)
    ensures
        final(qualifiers)@ == old(qualifiers)@,
        final(variables)@ == write_all(
            old(variables)@,
            module@.indexed_variables(names_of(old(qualifiers)@)),
        ),
        final(functions)@ == write_all(
            old(functions)@,
            module@.indexed_functions(names_of(old(qualifiers)@)),
        ),
    decreases module,
{
    let ghost path = names_of(qualifiers@);
    let ghost quals = qualifiers@;
    let ghost view = module@;
    let ghost vars0 = variables@;
    let ghost fns0 = functions@;
    proof {
        module.lemma_modules_model();
    }
    let mut i: usize = 0;
    while i < module.modules.len()
        invariant
            i <= module.modules@.len(),
            qualifiers@ == quals,
            path == names_of(quals),
            view == module@,
            view.modules == map_table(model_of(module.modules@), Module::modeler()),
            write_all(variables@, view.indexed_variables_from(path, i as int)) == write_all(
                vars0,
                view.indexed_variables(path),
            ),
            write_all(functions@, view.indexed_functions_from(path, i as int)) == write_all(
                fns0,
                view.indexed_functions(path),
            ),
        decreases module.modules@.len() - i,
    {
        let ghost vars1 = variables@;
        let ghost fns1 = functions@;
        let name = module.modules[i].0.as_str();
        qualifiers.push(name);
        proof {
            assert(names_of(qualifiers@) =~= path.push(name@));
        }
        index_module(&module.modules[i].1, qualifiers, variables, functions);
        qualifiers.pop();
        proof {
            assert(qualifiers@ =~= quals);
            let child = view.modules[i as int].1;
            assert(child == module.modules@[i as int].1@);
            lemma_write_all_concat(
                vars1,
                child.indexed_variables(path.push(name@)),
                view.indexed_variables_from(path, i as int + 1),
            );
            lemma_write_all_concat(
                fns1,
                child.indexed_functions(path.push(name@)),
                view.indexed_functions_from(path, i as int + 1),
            );
        }
        i += 1;
    }
    let ghost vars2 = variables@;
    let ghost fns2 = functions@;
    let ghost own = variable_pairs(view.variables, path);
    let mut k: usize = 0;
    while k < module.variables.len()
        invariant
            k <= module.variables@.len(),
            qualifiers@ == quals,
            path == names_of(quals),
            view == module@,
            own == variable_pairs(view.variables, path),
            variables@ == write_all(vars2, own.subrange(0, k as int)),
        decreases module.variables@.len() - k,
    {
        let hash_var = calc_def_hash(qualifiers.as_slice(), module.variables[k].0.as_str(), 0);
        variables.insert(hash_var, module.variables[k].1.clone());
        proof {
            assert(own.subrange(0, k as int + 1) =~= own.subrange(0, k as int).push(own[k as int]));
            lemma_write_all_push(vars2, own.subrange(0, k as int), own[k as int].0, own[k as int].1);
        }
        k += 1;
    }
    proof {
        assert(own.subrange(0, own.len() as int) =~= own);
    }
    let ghost natives = view.functions;
    let mut n: usize = 0;
    while n < module.functions.len()
        invariant
            n <= module.functions@.len(),
            qualifiers@ == quals,
            path == names_of(quals),
            view == module@,
            natives == view.functions,
            functions@ == write_all(fns2, native_pairs(natives.subrange(0, n as int), path)),
        decreases module.functions@.len() - n,
    {
        let info = &module.functions[n].1;
        proof {
            assert(natives.subrange(0, n as int + 1).drop_last() =~= natives.subrange(0, n as int));
            assert(natives[n as int].1 == info@);
        }
        match info.access {
            FnAccess::Private => {},
            FnAccess::Public => {
                let hash_fn_native = calc_native_key(
                    qualifiers.as_slice(),
                    info.name.as_str(),
                    info.params.as_slice(),
                );
                proof {
                    lemma_write_all_push(
                        fns2,
                        native_pairs(natives.subrange(0, n as int), path),
                        hash_fn_native,
                        info.func,
                    );
                }
                functions.insert(hash_fn_native, info.func.clone());
            },
        }
        n += 1;
    }
    proof {
        assert(natives.subrange(0, natives.len() as int) =~= natives);
    }
    let ghost fns3 = functions@;
    let ghost scripts = view.fn_lib;
    let mut d: usize = 0;
    while d < module.fn_lib.len()
        invariant
            d <= module.fn_lib@.len(),
            qualifiers@ == quals,
            path == names_of(quals),
            view == module@,
            scripts == view.fn_lib,
            scripts == module.fn_lib@,
            functions@ == write_all(fns3, script_pairs(scripts.subrange(0, d as int), path)),
        decreases module.fn_lib@.len() - d,
    {
        let (_, def) = module.fn_lib.entry(d);
        proof {
            assert(scripts.subrange(0, d as int + 1).drop_last() =~= scripts.subrange(0, d as int));
        }
        match def.access {
            FnAccess::Private => {},
            FnAccess::Public => {
                let hash_fn_def = calc_def_hash(
                    qualifiers.as_slice(),
                    def.name.as_str(),
                    def.params.len(),
                );
                proof {
                    lemma_write_all_push(
                        fns3,
                        script_pairs(scripts.subrange(0, d as int), path),
                        hash_fn_def,
                        CallableFunction::Script(scripts[d as int].1),
                    );
                }
                functions.insert(hash_fn_def, CallableFunction::Script(module.fn_lib.shared(d)));
            },
        }
        d += 1;
    }
    proof {
        assert(scripts.subrange(0, scripts.len() as int) =~= scripts);
        lemma_write_all_concat(fns2, native_pairs(natives, path), script_pairs(scripts, path));
    }
}

impl Module {
    /// Builds the two indexes anew from the whole tree below this module:
    /// every variable, and every public function, of this module and of each
    /// module below it, under the fingerprint of the path that leads to it.
    /// The path starts with the qualifier `root`, which stands for this
    /// module. Where two entries meet under one fingerprint, the one walked
    /// later stays.
    pub fn index_all_sub_modules(&mut self)
        ensures
            final(self)@ == old(self)@.indexed(),
            old(self)@.wf() ==> final(self)@.wf(),
    {
        proof {
            if old(self)@.wf() {
                lemma_tables_stay_unique(old(self)@);
            }
        }
        let mut variables: HashMap<u64, Dynamic> = HashMap::new();
        let mut functions: HashMap<u64, CallableFunction> = HashMap::new();
        let mut qualifiers: Vec<&str> = Vec::new();
        qualifiers.push("root");
        proof {
            assert(names_of(qualifiers@) =~= root_path());
        }
        index_module(self, &mut qualifiers, &mut variables, &mut functions);
        self.all_variables = variables;
        self.all_functions = functions;
        proof {
            self.lemma_modules_model();
            old(self).lemma_modules_model();
            assert(self@ =~= old(self)@.indexed());
        }
    }

    /// The variable that the index holds under the fingerprint `hash_var`,
    /// to be assigned through. Where the index holds none, the error names
    /// the variable as `name` and is reported at `pos`.
    pub fn get_qualified_var_mut(&mut self, name: &str, hash_var: u64, pos: Position) -> (r: Result<
        &mut Dynamic,
        Box<EvalAltResult>,
    >)
        ensures
            match r {
                Ok(v) => {
                    &&& old(self)@.all_variables.contains_key(hash_var)
                    &&& *v == old(self)@.all_variables[hash_var]
                    &&& final(self)@ == old(self)@.with_indexed_var(hash_var, *final(v))
                    &&& old(self)@.wf() ==> final(self)@.wf()
                },
                Err(e) => {
                    &&& !old(self)@.all_variables.contains_key(hash_var)
                    &&& *e matches EvalAltResult::ErrorVariableNotFound(n, p)
                    &&& n@ == name@
                    &&& p == pos
                    &&& final(self)@ == old(self)@
                },
            },
    {
        proof {
            if self@.wf() {
                lemma_tables_stay_unique(self@);
            }
            assert forall|m: Module| #[trigger]
                m.model().modules == map_table(model_of(m.modules@), Module::modeler()) by {
                m.lemma_modules_model();
            }
        }
        match value_mut(&mut self.all_variables, hash_var) {
            Some(v) => Ok(v),
            None => Err(Box::new(EvalAltResult::ErrorVariableNotFound(name.to_owned(), pos))),
        }
    }

    /// The function that the index holds under the fingerprint
    /// `hash_fn_native`. Where the index holds none, the error names the
    /// function as `name` and carries no position: the caller knows it.
    pub fn get_qualified_fn(&mut self, name: &str, hash_fn_native: u64) -> (r: Result<
        &CallableFunction,
        Box<EvalAltResult>,
    >)
        ensures
            final(self)@ == old(self)@,
            match r {
                Ok(f) => {
                    &&& old(self)@.all_functions.contains_key(hash_fn_native)
                    &&& *f == old(self)@.all_functions[hash_fn_native]
                },
                Err(e) => {
                    &&& !old(self)@.all_functions.contains_key(hash_fn_native)
                    &&& *e matches EvalAltResult::ErrorFunctionNotFound(n, p)
                    &&& n@ == name@
                    &&& p == (Position { line: 0, pos: 0 })
                },
            },
    {
        match self.all_functions.get(&hash_fn_native) {
            Some(f) => Ok(f),
            None => Err(Box::new(EvalAltResult::ErrorFunctionNotFound(name.to_owned(), Position::none()))),
        }
    }
}

impl Clone for FuncInfo {
    /// A copy that shares the function itself.
    fn clone(&self) -> (f: Self)
        ensures
            f@ == self@,
    {
        FuncInfo {
            name: self.name.clone(),
            access: self.access,
            params: slice_to_vec(self.params.as_slice()),
            func: self.func.clone(),
        }
    }
}

impl Clone for Module {
    /// A copy of the whole tree: sub-modules, variables and indexes are
    /// copied, functions and iterators are shared with the original.
    fn clone(&self) -> (m: Self)
        ensures
            m@ == self@,
        decreases self,
    {
        let mut modules: Vec<(String, Module)> = Vec::new();
        let mut i: usize = 0;
        while i < self.modules.len()
            invariant
                i <= self.modules@.len(),
                modules@.len() == i,
                forall|j: int|
                    0 <= j < i ==> (#[trigger] modules@[j]).0@ == self.modules@[j].0@
                        && modules@[j].1.model() == self.modules@[j].1.model(),
            decreases self.modules@.len() - i,
        {
            let sub = self.modules[i].1.clone();
            modules.push((self.modules[i].0.clone(), sub));
            i += 1;
        }
        let mut variables: Vec<(String, Dynamic)> = Vec::new();
        let mut k: usize = 0;
        while k < self.variables.len()
            invariant
                k <= self.variables@.len(),
                variables@.len() == k,
                forall|j: int|
                    0 <= j < k ==> (#[trigger] variables@[j]).0@ == self.variables@[j].0@
                        && variables@[j].1 == self.variables@[j].1,
            decreases self.variables@.len() - k,
        {
            variables.push((self.variables[k].0.clone(), self.variables[k].1.clone()));
            k += 1;
        }
        let mut functions: Vec<(u64, FuncInfo)> = Vec::new();
        let mut n: usize = 0;
        while n < self.functions.len()
            invariant
                n <= self.functions@.len(),
                functions@.len() == n,
                forall|j: int|
                    0 <= j < n ==> (#[trigger] functions@[j]).0 == self.functions@[j].0
                        && functions@[j].1@ == self.functions@[j].1@,
            decreases self.functions@.len() - n,
        {
            functions.push((self.functions[n].0, self.functions[n].1.clone()));
            n += 1;
        }
        let mut type_iterators: Vec<(TypeId, IteratorFn)> = Vec::new();
        let mut t: usize = 0;
        while t < self.type_iterators.len()
            invariant
                t <= self.type_iterators@.len(),
                type_iterators@ == self.type_iterators@.subrange(0, t as int),
            decreases self.type_iterators@.len() - t,
        {
            type_iterators.push((self.type_iterators[t].0, share(&self.type_iterators[t].1)));
            proof {
                assert(type_iterators@ =~= self.type_iterators@.subrange(0, t as int + 1));
            }
            t += 1;
        }
        let m = Module {
            modules,
            variables,
            all_variables: self.all_variables.clone(),
            functions,
            fn_lib: self.fn_lib.clone(),
            type_iterators,
            all_functions: self.all_functions.clone(),
        };
        proof {
            m.lemma_modules_model();
            self.lemma_modules_model();
            assert(m@.modules =~= self@.modules);
            assert(m@.variables =~= self@.variables);
            assert(m@.functions =~= self@.functions);
            assert(m.type_iterators@ =~= self.type_iterators@);
            assert(m@ =~= self@);
        }
        m
    }
}

impl Default for Module {
    /// The empty module.
    fn default() -> (m: Self)
        ensures
            m@ == ModuleView::empty(),
            m@.wf(),
    {
        Module::new()
    }
}

} // verus!
