//! Scopes: the bindings that a script leaves behind when it has run, and
//! the module that its exports make.

use vstd::prelude::*;
use vstd::string::*;
use std::rc::Rc;
use crate::callable::{CodeRef, FnDef};
use crate::dynamic::{Dynamic, Variant};
use crate::error::{EvalAltResult, FuncReturn};
use crate::fn_lib::FunctionsLib;
use crate::model::{lemma_sub_stays_unique, lemma_tables_stay_unique, ModuleView};
use crate::module::Module;

verus! {

/// What a name in a scope is bound to.
pub enum Binding {
    /// A variable.
    Normal(Dynamic),
    /// A constant.
    Constant(Dynamic),
    /// An imported module.
    Module(Module),
}

/// The model of a binding.
pub enum BindingView {
    Normal(Dynamic),
    Constant(Dynamic),
    Module(ModuleView),
}

impl View for Binding {
    type V = BindingView;

    open spec fn view(&self) -> BindingView {
        match self {
            Binding::Normal(v) => BindingView::Normal(*v),
            Binding::Constant(v) => BindingView::Constant(*v),
            Binding::Module(m) => BindingView::Module(m@),
        }
    }
}

/// One binding of a scope: its name, what it is bound to, and the name under
/// which it is exported, if it is.
pub struct ScopeEntry {
    pub name: String,
    pub value: Binding,
    pub alias: Option<String>,
}

/// The model of a scope entry.
pub struct EntryView {
    pub name: Seq<char>,
    pub value: BindingView,
    pub alias: Option<Seq<char>>,
}

impl View for ScopeEntry {
    type V = EntryView;

    open spec fn view(&self) -> EntryView {
        EntryView {
            name: self.name@,
            value: self.value@,
            alias: match self.alias {
                Some(a) => Some(a@),
                None => None,
            },
        }
    }
}

/// The bindings of a script, in the order in which they were made.
pub struct Scope {
    entries: Vec<ScopeEntry>,
}

impl View for Scope {
    type V = Seq<EntryView>;

    closed spec fn view(&self) -> Seq<EntryView> {
        Seq::new(self.entries@.len(), |i: int| self.entries@[i]@)
    }
}

/// The place of the last entry named `name` among the first `n` entries, or
/// -1 if there is none: a later binding hides an earlier one.
pub open spec fn last_named(entries: Seq<EntryView>, name: Seq<char>, n: int) -> int
    decreases n,
{
    if n <= 0 {
        -1
    } else if entries[n - 1].name == name {
        n - 1
    } else {
        last_named(entries, name, n - 1)
    }
}

/// The module that the entries export: each entry with an alias, in order,
/// sets a variable of that name where it binds a value, and a sub-module of
/// that name where it binds a module. Entries without an alias are left out.
pub open spec fn exported(entries: Seq<EntryView>) -> ModuleView
    decreases entries.len(),
{
    if entries.len() == 0 {
        ModuleView::empty()
    } else {
        let before = exported(entries.drop_last());
        let entry = entries.last();
        match entry.alias {
            None => before,
            Some(alias) => match entry.value {
                BindingView::Normal(v) => before.with_var(alias, v),
                BindingView::Constant(v) => before.with_var(alias, v),
                BindingView::Module(m) => before.with_sub(alias, m),
            },
        }
    }
}

/// The module that a script makes: what the scope it leaves behind exports,
/// with the functions that the script defines.
pub open spec fn module_of_script(entries: Seq<EntryView>, fn_lib: Seq<(u64, Rc<FnDef>)>) -> ModuleView {
    exported(entries).with_script_fns(fn_lib)
}

/// Every module that the entries bind repeats no key.
pub open spec fn modules_wf(entries: Seq<EntryView>) -> bool {
    forall|i: int|
        0 <= i < entries.len() ==> ((#[trigger] entries[i]).value matches BindingView::Module(m)
            ==> m.wf())
}

/// What is exported from modules that repeat no key repeats none.
pub proof fn lemma_exported_wf(entries: Seq<EntryView>)
    requires
        modules_wf(entries),
    ensures
        exported(entries).wf(),
    decreases entries.len(),
{
    if entries.len() > 0 {
        let before = entries.drop_last();
        assert forall|i: int| 0 <= i < before.len() implies ((#[trigger] before[i]).value matches BindingView::Module(
            m,
        ) ==> m.wf()) by {
            assert(before[i] == entries[i]);
        }
        lemma_exported_wf(before);
        lemma_tables_stay_unique(exported(before));
        let entry = entries.last();
        assert(entry == entries[entries.len() - 1]);
        if let Some(alias) = entry.alias {
            if let BindingView::Module(m) = entry.value {
                lemma_sub_stays_unique(exported(before), alias, m);
            }
        }
    }
}

impl Scope {
    /// An empty scope.
    pub fn new() -> (s: Self)
        ensures
            s@ == Seq::<EntryView>::empty(),
    {
        let s = Scope { entries: Vec::new() };
        proof {
            assert(s@ =~= Seq::<EntryView>::empty());
        }
        s
    }

    /// The number of bindings.
    pub fn len(&self) -> (n: usize)
        ensures
            n == self@.len(),
    {
        self.entries.len()
    }

    /// Adds an entry at the end.
    pub fn push_entry(&mut self, entry: ScopeEntry)
        ensures
            final(self)@ == old(self)@.push(entry@),
    {
        self.entries.push(entry);
        proof {
            assert(self@ =~= old(self)@.push(entry@));
        }
    }

    /// Binds `name` to a variable that holds `value`.
    pub fn push<T: Variant>(&mut self, name: &str, value: T)
        ensures
            final(self)@ == old(self)@.push(
                EntryView { name: name@, value: BindingView::Normal(value.wrap()), alias: None },
            ),
    {
        self.push_entry(
            ScopeEntry { name: name.to_owned(), value: Binding::Normal(Dynamic::from(value)), alias: None },
        );
    }

    /// Binds `name` to a constant that holds `value`.
    pub fn push_constant<T: Variant>(&mut self, name: &str, value: T)
        ensures
            final(self)@ == old(self)@.push(
                EntryView { name: name@, value: BindingView::Constant(value.wrap()), alias: None },
            ),
    {
        self.push_entry(
            ScopeEntry {
                name: name.to_owned(),
                value: Binding::Constant(Dynamic::from(value)),
                alias: None,
            },
        );
    }

    /// Binds `name` to the module `module`.
    pub fn push_module(&mut self, name: &str, module: Module)
        ensures
            final(self)@ == old(self)@.push(
                EntryView { name: name@, value: BindingView::Module(module@), alias: None },
            ),
    {
        self.push_entry(ScopeEntry { name: name.to_owned(), value: Binding::Module(module), alias: None });
    }

    /// The place of the binding that `name` stands for: the last one of that
    /// name.
    pub fn get_index(&self, name: &str) -> (r: Option<usize>)
        ensures
            match r {
                Some(i) => i == last_named(self@, name@, self@.len() as int),
                None => last_named(self@, name@, self@.len() as int) == -1,
            },
    {
        let mut n: usize = self.entries.len();
        while n > 0
            invariant
                n <= self.entries@.len(),
                last_named(self@, name@, self@.len() as int) == last_named(self@, name@, n as int),
            decreases n,
        {
            if crate::text::str_eq(self.entries[n - 1].name.as_str(), name) {
                return Some(n - 1);
            }
            n -= 1;
        }
        None
    }

    /// Exports the binding at place `index` under the name `alias`.
    pub fn set_entry_alias(&mut self, index: usize, alias: &str)
        requires
            index < old(self)@.len(),
        ensures
            final(self)@ == old(self)@.update(
                index as int,
                EntryView { alias: Some(alias@), ..old(self)@[index as int] },
            ),
    {
        self.entries[index].alias = Some(alias.to_owned());
        proof {
            assert(self@ =~= old(self)@.update(
                index as int,
                EntryView { alias: Some(alias@), ..old(self)@[index as int] },
            ));
        }
    }
}

/// A compiled script, as far as modules need it: where the evaluator finds
/// its statements, and the functions that it defines.
pub struct AST {
    code: CodeRef,
    fn_lib: FunctionsLib,
}

impl AST {
    /// The script whose statements are at `code` and which defines the
    /// functions of `fn_lib`.
    pub fn new(code: CodeRef, fn_lib: FunctionsLib) -> (ast: Self)
        ensures
            ast.spec_code() == code,
            ast.spec_fn_lib() == fn_lib,
    {
        AST { code, fn_lib }
    }

    /// Where the evaluator finds the statements.
    pub closed spec fn spec_code(&self) -> CodeRef {
        self.code
    }

    /// The functions that the script defines.
    pub closed spec fn spec_fn_lib(&self) -> FunctionsLib {
        self.fn_lib
    }

    /// Where the evaluator finds the statements.
    #[verifier::when_used_as_spec(spec_code)]
    pub fn code(&self) -> (c: CodeRef)
        ensures
            c == self.spec_code(),
    {
        self.code
    }

    /// The functions that the script defines.
    pub fn fn_lib(&self) -> (lib: &FunctionsLib)
        ensures
            *lib == self.spec_fn_lib(),
    {
        &self.fn_lib
    }
}

/// What compiles and runs scripts. Modules ask it to do both and make no
/// assumption about the outcome.
pub trait Engine {
    /// Compiles the script in the file at `path`.
    fn compile_file(&self, path: &str) -> FuncReturn<AST>;

    /// Runs `ast` on `scope`. The bindings that the script makes, and the
    /// aliases under which it exports them, are left in `scope`.
    fn eval_ast_with_scope_raw(&self, scope: &mut Scope, ast: &AST) -> Result<(), Box<EvalAltResult>>;
}

impl Module {
    /// Makes a module of the scope that a script has left behind and of the
    /// functions that the script defines. The module is not indexed.
    pub fn from_scope(scope: Scope, ast: &AST) -> (m: Module)
        ensures
            m@ == module_of_script(scope@, ast.spec_fn_lib()@),
            modules_wf(scope@) ==> m@.wf(),
    {
        proof {
            if modules_wf(scope@) {
                lemma_exported_wf(scope@);
                lemma_tables_stay_unique(exported(scope@));
            }
        }
        let mut module = Module::new();
        let ghost all = scope@;
        let mut entries = scope.entries;
        let total = entries.len();
        let mut stack: Vec<ScopeEntry> = Vec::with_capacity(total);
        while entries.len() > 0
            invariant
                entries@.len() + stack@.len() == all.len(),
                all.len() <= usize::MAX,
                forall|j: int| 0 <= j < entries@.len() ==> (#[trigger] entries@[j])@ == all[j],
                forall|j: int|
                    0 <= j < stack@.len() ==> (#[trigger] stack@[j])@ == all[all.len() - 1 - j],
            decreases entries@.len(),
        {
            let e = entries.pop().unwrap();
            stack.push(e);
        }
        let mut done: usize = 0;
        while stack.len() > 0
            invariant
                done + stack@.len() == all.len(),
                all.len() <= usize::MAX,
                forall|j: int|
                    0 <= j < stack@.len() ==> (#[trigger] stack@[j])@ == all[all.len() - 1 - j],
                module@ == exported(all.subrange(0, done as int)),
                module@.fn_lib == Seq::<(u64, Rc<FnDef>)>::empty(),
            decreases stack@.len(),
        {
            let entry = stack.pop().unwrap();
            proof {
                assert(entry@ == all[done as int]);
                assert(all.subrange(0, done as int + 1).drop_last() =~= all.subrange(0, done as int));
            }
            match entry.alias {
                None => {},
                Some(alias) => match entry.value {
                    Binding::Normal(v) => {
                        module.set_dynamic(alias.as_str(), v);
                    },
                    Binding::Constant(v) => {
                        module.set_dynamic(alias.as_str(), v);
                    },
                    Binding::Module(m) => {
                        module.set_sub_module(alias.as_str(), m);
                    },
                },
            }
            done += 1;
        }
        proof {
            assert(all.subrange(0, all.len() as int) =~= all);
        }
        module.merge_fn_lib(ast.fn_lib());
        module
    }

    /// What a run of a script makes: where the run failed, its error and no
    /// module; where it succeeded, the module of the scope that it left
    /// behind and of the functions that the script defines.
    pub fn from_run(outcome: Result<(), Box<EvalAltResult>>, scope: Scope, ast: &AST) -> (r:
        FuncReturn<Module>)
        ensures
            match outcome {
                Ok(_) => r matches Ok(m) && m@ == module_of_script(scope@, ast.spec_fn_lib()@) && (
                modules_wf(scope@) ==> m@.wf()),
                Err(e) => r == Err::<Module, Box<EvalAltResult>>(e),
            },
    {
        match outcome {
            Ok(_) => Ok(Module::from_scope(scope, ast)),
            Err(e) => Err(e),
        }
    }

    /// Runs `ast` on `scope` and makes a module of what the script exports:
    /// of the bindings with an alias that it leaves in the scope, and of the
    /// functions that it defines. Where the script fails, so does this, with
    /// the script's error, and no module is made. The module is not indexed.
    pub fn eval_ast_as_new<E: Engine>(scope: Scope, ast: &AST, engine: &E) -> (r: FuncReturn<Module>)
        ensures
            r matches Ok(m) ==> exists|left: Seq<EntryView>|
                m@ == #[trigger] module_of_script(left, ast.spec_fn_lib()@),
    {
        let mut scope = scope;
        let outcome = engine.eval_ast_with_scope_raw(&mut scope, ast);
        let ghost left = scope@;
        let r = Module::from_run(outcome, scope, ast);
        let ghost made = r;
        proof {
            if let Ok(m) = made {
                assert(m@ == module_of_script(left, ast.spec_fn_lib()@));
            }
        }
        r
    }
}

} // verus!
