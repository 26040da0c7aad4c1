//! Resolvers: what turns the path of an `import` into a module.

use vstd::prelude::*;
use vstd::string::*;
use std::rc::Rc;
use crate::callable::FnDef;
use crate::error::{EvalAltResult, FuncReturn};
use crate::model::ModuleView;
use crate::module::Module;
use crate::paths::{script_file, script_path};
use crate::scope::{module_of_script, Engine, EntryView, Scope};
use crate::table::{
    find, get, has_key, insert, lemma_map_table_keys, lemma_map_table_put, lemma_put_unique,
    map_table, model_of, put, unique,
};
use crate::types::Position;

verus! {

/// A service that finds the module for an import path.
pub trait ModuleResolver {
    /// The module for `path`, asked for by an import at `pos`. `engine` and
    /// `scope` are there for resolvers that compile and run scripts.
    fn resolve<E: Engine>(&self, engine: &E, scope: Scope, path: &str, pos: Position) -> FuncReturn<
        Module,
    >;
}

/// The result `r`, with its error, if it is one, moved to `pos`.
pub open spec fn repositioned<T>(r: FuncReturn<T>, pos: Position) -> FuncReturn<T> {
    match r {
        Ok(v) => Ok(v),
        Err(e) => Err(Box::new((*e).at(pos))),
    }
}

/// Moves the error of `r`, if it is one, to `pos`: an error of an imported
/// script is reported where the import stands.
pub fn reposition<T>(r: FuncReturn<T>, pos: Position) -> (out: FuncReturn<T>)
    ensures
        out == repositioned(r, pos),
{
    match r {
        Ok(v) => Ok(v),
        Err(e) => Err(e.new_position(pos)),
    }
}

/// A resolver that serves the modules that were put into it, each under its
/// path.
pub struct StaticModuleResolver {
    modules: Vec<(String, Module)>,
}

impl View for StaticModuleResolver {
    type V = Seq<(Seq<char>, ModuleView)>;

    closed spec fn view(&self) -> Seq<(Seq<char>, ModuleView)> {
        map_table(model_of(self.modules@), Module::modeler())
    }
}

impl StaticModuleResolver {
    /// A resolver without modules.
    pub fn new() -> (r: Self)
        ensures
            r@ == Seq::<(Seq<char>, ModuleView)>::empty(),
    {
        let r = StaticModuleResolver { modules: Vec::new() };
        proof {
            assert(r@ =~= Seq::<(Seq<char>, ModuleView)>::empty());
        }
        r
    }

    /// The number of modules.
    pub fn len(&self) -> (n: usize)
        ensures
            n == self@.len(),
    {
        self.modules.len()
    }

    /// Is there no module?
    pub fn is_empty(&self) -> (b: bool)
        ensures
            b == (self@.len() == 0),
    {
        self.modules.len() == 0
    }

    /// Is there a module under `path`?
    pub fn contains_key(&self, path: &str) -> (b: bool)
        ensures
            b == has_key(self@, path@),
    {
        proof {
            lemma_map_table_keys(model_of(self.modules@), Module::modeler(), path@);
        }
        find(&self.modules, path).is_some()
    }

    /// Puts `module` under `path`, in place of an earlier module where there
    /// is one.
    pub fn insert(&mut self, path: String, module: Module)
        ensures
            final(self)@ == put(old(self)@, path@, module@),
            unique(old(self)@) ==> unique(final(self)@),
    {
        proof {
            if unique(self@) {
                lemma_put_unique(self@, path@, module@);
            }
        }
        insert(&mut self.modules, path, module);
        proof {
            Module::lemma_modeler(module);
            lemma_map_table_put(model_of(old(self).modules@), Module::modeler(), path@, module);
        }
    }

    /// A copy of the module under `path`; where there is none, the error
    /// that names `path` and is reported at `pos`.
    pub fn find_module(&self, path: &str, pos: Position) -> (r: FuncReturn<Module>)
        ensures
            match get(self@, path@) {
                Some(found) => r matches Ok(m) && m@ == found,
                None => r matches Err(e) && *e matches EvalAltResult::ErrorModuleNotFound(p, q)
                    && p@ == path@ && q == pos,
            },
    {
        proof {
            lemma_map_table_keys(model_of(self.modules@), Module::modeler(), path@);
        }
        match crate::table::lookup(&self.modules, path) {
            Some(m) => {
                proof {
                    Module::lemma_modeler(*m);
                }
                Ok(m.clone())
            },
            None => Err(Box::new(EvalAltResult::ErrorModuleNotFound(path.to_owned(), pos))),
        }
    }
}

impl ModuleResolver for StaticModuleResolver {
    /// A copy of the module under `path`; where there is none, the error
    /// that names `path` and is reported at `pos`. The engine and the scope
    /// are not used.
    fn resolve<E: Engine>(&self, engine: &E, scope: Scope, path: &str, pos: Position) -> (r:
        FuncReturn<Module>)
        ensures
            match get(self@, path@) {
                Some(found) => r matches Ok(m) && m@ == found,
                None => r matches Err(e) && *e matches EvalAltResult::ErrorModuleNotFound(p, q)
                    && p@ == path@ && q == pos,
            },
    {
        self.find_module(path, pos)
    }
}

/// A resolver that loads modules from script files below a base directory.
/// The file for an import is looked for under the import path taken from
/// the base directory, with a fixed extension in place of its own.
#[derive(Debug, PartialEq, Eq, PartialOrd, Ord, Hash)]
pub struct FileModuleResolver {
    path: String,
    extension: String,
}

/// The model of a file resolver.
pub struct FileResolverView {
    pub path: Seq<char>,
    pub extension: Seq<char>,
}

impl View for FileModuleResolver {
    type V = FileResolverView;

    closed spec fn view(&self) -> FileResolverView {
        FileResolverView { path: self.path@, extension: self.extension@ }
    }
}

impl FileModuleResolver {
    /// A resolver for the current directory and the extension `rhai`.
    pub fn new() -> (r: Self)
        ensures
            r@.path == Seq::<char>::empty(),
            r@.extension == "rhai"@,
    {
        FileModuleResolver { path: String::new(), extension: "rhai".to_owned() }
    }

    /// A resolver for the directory `path` and the extension `rhai`.
    pub fn new_with_path(path: &str) -> (r: Self)
        ensures
            r@.path == path@,
            r@.extension == "rhai"@,
    {
        FileModuleResolver::new_with_path_and_extension(path, "rhai")
    }

    /// A resolver for the directory `path` and the extension `extension`.
    pub fn new_with_path_and_extension(path: &str, extension: &str) -> (r: Self)
        ensures
            r@.path == path@,
            r@.extension == extension@,
    {
        FileModuleResolver { path: path.to_owned(), extension: extension.to_owned() }
    }

    /// The file in which the script of the import path `path` is looked for.
    pub fn file_path(&self, path: &str) -> (file: String)
        ensures
            file@ == script_file(self@.path, path@, self@.extension),
    {
        script_path(self.path.as_str(), path, self.extension.as_str())
    }

    /// Loads the module of the import path `path`, for a caller that has no
    /// position to report: errors are reported at the start of a script.
    pub fn create_module<E: Engine>(&self, engine: &E, scope: Scope, path: &str) -> (r: FuncReturn<
        Module,
    >)
        ensures
            r matches Err(e) ==> e.spec_position() == (Position { line: 1, pos: 0 }),
            r matches Ok(m) ==> exists|left: Seq<EntryView>, lib: Seq<(u64, Rc<FnDef>)>|
                m@ == #[trigger] module_of_script(left, lib),
    {
        self.resolve(engine, scope, path, Position::start())
    }
}

impl ModuleResolver for FileModuleResolver {
    /// Compiles the file of the import path `path`, runs the script on
    /// `scope` and makes a module of what it exports. Where compiling or
    /// running fails, the error is that of the engine, moved to `pos`.
    fn resolve<E: Engine>(&self, engine: &E, scope: Scope, path: &str, pos: Position) -> (r:
        FuncReturn<Module>)
        ensures
            r matches Err(e) ==> e.spec_position() == pos,
            r matches Ok(m) ==> exists|left: Seq<EntryView>, lib: Seq<(u64, Rc<FnDef>)>|
                m@ == #[trigger] module_of_script(left, lib),
    {
        let file = self.file_path(path);
        match reposition(engine.compile_file(file.as_str()), pos) {
            Err(e) => Err(e),
            Ok(ast) => {
                let made = Module::eval_ast_as_new(scope, &ast, engine);
                let ghost seen = made;
                proof {
                    if let Ok(m) = seen {
                        let left = choose|left: Seq<EntryView>|
                            m@ == #[trigger] module_of_script(left, ast.spec_fn_lib()@);
                        assert(m@ == module_of_script(left, ast.spec_fn_lib()@));
                    }
                }
                reposition(made, pos)
            },
        }
    }
}

impl Clone for FileModuleResolver {
    fn clone(&self) -> (r: Self)
        ensures
            r@ == self@,
    {
        FileModuleResolver { path: self.path.clone(), extension: self.extension.clone() }
    }
}

impl Default for FileModuleResolver {
    /// The resolver for the current directory and the extension `rhai`.
    fn default() -> (r: Self)
        ensures
            r@.path == Seq::<char>::empty(),
            r@.extension == "rhai"@,
    {
        FileModuleResolver::new()
    }
}

impl Default for StaticModuleResolver {
    /// The resolver without modules.
    fn default() -> (r: Self)
        ensures
            r@ == Seq::<(Seq<char>, ModuleView)>::empty(),
    {
        StaticModuleResolver::new()
    }
}

impl Clone for StaticModuleResolver {
    /// A resolver with copies of the same modules under the same paths.
    fn clone(&self) -> (r: Self)
        ensures
            r@ == self@,
    {
        let mut modules: Vec<(String, Module)> = Vec::new();
        let mut i: usize = 0;
        while i < self.modules.len()
            invariant
                i <= self.modules@.len(),
                modules@.len() == i,
                forall|j: int|
                    0 <= j < i ==> (#[trigger] modules@[j]).0@ == self.modules@[j].0@
                        && modules@[j].1@ == self.modules@[j].1@,
            decreases self.modules@.len() - i,
        {
            modules.push((self.modules[i].0.clone(), self.modules[i].1.clone()));
            i += 1;
        }
        let r = StaticModuleResolver { modules };
        proof {
            assert forall|j: int| 0 <= j < r@.len() implies r@[j] == self@[j] by {
                Module::lemma_modeler(modules@[j].1);
                Module::lemma_modeler(self.modules@[j].1);
            }
            assert(r@ =~= self@);
        }
        r
    }
}

} // verus!
