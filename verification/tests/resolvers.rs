use script_modules::callable::{CodeRef, FnDef};
use script_modules::error::{EvalAltResult, FuncReturn};
use script_modules::fn_lib::FunctionsLib;
use script_modules::module::Module;
use script_modules::paths::{join_path, replace_extension, script_path};
use script_modules::resolver::{
    reposition, FileModuleResolver, ModuleResolver, StaticModuleResolver,
};
use script_modules::scope::{Engine, Scope, AST};
use script_modules::types::{FnAccess, Position};
use std::cell::RefCell;

/// An engine that knows three files: one that exports, one that does not
/// compile, and one that fails when it runs.
struct ScriptedEngine {
    asked: RefCell<Vec<String>>,
}

impl ScriptedEngine {
    fn new() -> Self {
        ScriptedEngine { asked: RefCell::new(Vec::new()) }
    }
}

impl Engine for ScriptedEngine {
    fn compile_file(&self, path: &str) -> FuncReturn<AST> {
        self.asked.borrow_mut().push(path.to_string());
        if path.ends_with("good.rhai") {
            let mut lib = FunctionsLib::new();
            lib.add(FnDef {
                name: "helper".to_string(),
                access: FnAccess::Public,
                params: vec!["a".to_string()],
                body: CodeRef { id: 11 },
            });
            Ok(AST::new(CodeRef { id: 1 }, lib))
        } else if path.ends_with("fails.rhai") {
            Ok(AST::new(CodeRef { id: 2 }, FunctionsLib::new()))
        } else {
            Err(Box::new(EvalAltResult::ErrorParsing("unexpected token".to_string(), Position::new(7, 9))))
        }
    }

    fn eval_ast_with_scope_raw(&self, scope: &mut Scope, ast: &AST) -> Result<(), Box<EvalAltResult>> {
        if ast.code() == (CodeRef { id: 1 }) {
            scope.push("answer", 42_i64);
            let at = scope.get_index("answer").unwrap();
            scope.set_entry_alias(at, "answer");
            Ok(())
        } else {
            scope.push("partial", 1_i64);
            let at = scope.get_index("partial").unwrap();
            scope.set_entry_alias(at, "partial");
            Err(Box::new(EvalAltResult::ErrorRuntime("division by zero".to_string(), Position::new(5, 6))))
        }
    }
}

#[test]
fn static_resolver_miss_reports_path_and_position() {
    let resolver = StaticModuleResolver::new();
    let engine = ScriptedEngine::new();
    let pos = Position::new(12, 3);
    let err = resolver.resolve(&engine, Scope::new(), "missing", pos).err().unwrap();
    assert_eq!(*err, EvalAltResult::ErrorModuleNotFound("missing".to_string(), pos));
    assert!(engine.asked.borrow().is_empty());
}

#[test]
fn static_resolver_miss_beside_other_modules() {
    let mut resolver = StaticModuleResolver::new();
    resolver.insert("hello".to_string(), Module::new());
    let err = resolver.find_module("missing", Position::new(1, 1)).err().unwrap();
    assert_eq!(*err, EvalAltResult::ErrorModuleNotFound("missing".to_string(), Position::new(1, 1)));
    let err = resolver.find_module("hell", Position::none()).err().unwrap();
    assert_eq!(*err, EvalAltResult::ErrorModuleNotFound("hell".to_string(), Position::none()));
}

#[test]
fn static_resolver_hands_out_copies() {
    let mut stored = Module::new();
    stored.set_var("x", 1_i64);
    let mut resolver = StaticModuleResolver::new();
    assert!(resolver.is_empty());
    resolver.insert("hello".to_string(), stored);
    assert_eq!(resolver.len(), 1);
    assert!(resolver.contains_key("hello"));
    assert!(!resolver.contains_key("world"));
    let engine = ScriptedEngine::new();
    let mut first = resolver.resolve(&engine, Scope::new(), "hello", Position::none()).ok().unwrap();
    assert_eq!(first.get_var_value::<i64>("x"), Some(1));
    first.set_var("x", 2_i64);
    let second = resolver.resolve(&engine, Scope::new(), "hello", Position::none()).ok().unwrap();
    assert_eq!(second.get_var_value::<i64>("x"), Some(1));
}

#[test]
fn static_resolver_replaces_a_module_under_the_same_path() {
    let mut a = Module::new();
    a.set_var("which", 'a');
    let mut b = Module::new();
    b.set_var("which", 'b');
    let mut resolver = StaticModuleResolver::new();
    resolver.insert("m".to_string(), a);
    resolver.insert("m".to_string(), b);
    assert_eq!(resolver.len(), 1);
    let got = resolver.find_module("m", Position::none()).ok().unwrap();
    assert_eq!(got.get_var_value::<char>("which"), Some('b'));
}

#[test]
fn file_path_is_base_and_path_with_forced_extension() {
    let resolver = FileModuleResolver::new_with_path_and_extension("./scripts", "x");
    assert_eq!(resolver.file_path("loader"), "./scripts/loader.x");
    assert_eq!(resolver.file_path("loader.rhai"), "./scripts/loader.x");
    assert_eq!(resolver.file_path("sub/loader.script"), "./scripts/sub/loader.x");
    let plain = FileModuleResolver::new_with_path("lib");
    assert_eq!(plain.file_path("math"), "lib/math.rhai");
    assert_eq!(plain.file_path("math.txt"), "lib/math.rhai");
    let here = FileModuleResolver::new();
    assert_eq!(here.file_path("math"), "math.rhai");
    assert_eq!(here.file_path("dir.d/math.tar.gz"), "dir.d/math.tar.rhai");
}

#[test]
fn path_joining_edge_cases() {
    assert_eq!(join_path("", "a/b"), "a/b");
    assert_eq!(join_path("base", "a"), "base/a");
    assert_eq!(join_path("base/", "a"), "base/a");
    assert_eq!(join_path("base", "/abs/a"), "/abs/a");
    assert_eq!(join_path("base", ""), "base/");
    assert_eq!(join_path("", ""), "");
    assert_eq!(join_path("bäse", "ünit"), "bäse/ünit");
}

#[test]
fn extension_replacement_edge_cases() {
    assert_eq!(replace_extension("a.b", "x"), "a.x");
    assert_eq!(replace_extension("a", "x"), "a.x");
    assert_eq!(replace_extension("a.b.c", "x"), "a.b.x");
    assert_eq!(replace_extension("dir.d/a", "x"), "dir.d/a.x");
    assert_eq!(replace_extension(".hidden", "x"), ".hidden.x");
    assert_eq!(replace_extension("dir/.hidden.rc", "x"), "dir/.hidden.x");
    assert_eq!(replace_extension("dir/", "x"), "dir.x");
    assert_eq!(replace_extension("dir//", "x"), "dir.x");
    assert_eq!(replace_extension("dir/.", "x"), "dir.x");
    assert_eq!(replace_extension("a/b.c/", "x"), "a/b.x");
    assert_eq!(replace_extension("a/b.c/", ""), "a/b");
    assert_eq!(replace_extension("/", "x"), "/");
    assert_eq!(replace_extension(".", "x"), ".");
    assert_eq!(replace_extension("./", "x"), "./");
    assert_eq!(replace_extension("..", "x"), "..");
    assert_eq!(replace_extension("scripts/..", "x"), "scripts/..");
    assert_eq!(replace_extension("scripts/../", "x"), "scripts/../");
    assert_eq!(replace_extension("...", "x"), "...x");
    assert_eq!(replace_extension("a/..b", "x"), "a/..x");
    assert_eq!(replace_extension("", "x"), "");
    assert_eq!(replace_extension("a.b", ""), "a");
    assert_eq!(replace_extension("a.", "x"), "a.x");
    assert_eq!(replace_extension("größe.alt", "neu"), "größe.neu");
    assert_eq!(script_path("scripts", "lib/util.rhai", "x"), "scripts/lib/util.x");
}

#[test]
fn script_files_are_those_of_the_standard_path_type() {
    let bases = ["", "scripts", "scripts/", "./scripts", "/abs/dir", "a.b", ".", "..", "/"];
    let paths = [
        "", "m", "m.rhai", "m.tar.gz", "sub/m", "sub/m.x", "sub.d/m", "/abs/m.y", "lib/", "lib//",
        "lib/.", "lib/./", "..", "../", "../m", "sub/..", ".", "./", "./m", ".hidden", ".hidden.rc",
        "sub/.hidden", "a.", "a..", "...", "..b", "a/..b", "größe.alt", "//", "/", "a//b.c", "a/./b.c",
    ];
    let extensions = ["rhai", "x", "", "tar.gz"];
    for base in bases {
        for path in paths {
            for extension in extensions {
                let mut expected = std::path::PathBuf::from(base);
                expected.push(path);
                expected.set_extension(extension);
                assert_eq!(
                    script_path(base, path, extension),
                    expected.to_str().unwrap(),
                    "base {:?}, path {:?}, extension {:?}",
                    base,
                    path,
                    extension
                );
            }
        }
    }
}

#[test]
fn file_resolver_makes_a_module_of_the_script() {
    let resolver = FileModuleResolver::new_with_path("scripts");
    let engine = ScriptedEngine::new();
    let module = resolver.resolve(&engine, Scope::new(), "good", Position::new(2, 2)).ok().unwrap();
    assert_eq!(engine.asked.borrow().as_slice(), ["scripts/good.rhai".to_string()]);
    assert_eq!(module.get_var_value::<i64>("answer"), Some(42));
}

#[test]
fn file_resolver_moves_compile_errors_to_the_import() {
    let resolver = FileModuleResolver::new_with_path("scripts");
    let engine = ScriptedEngine::new();
    let pos = Position::new(2, 2);
    let err = resolver.resolve(&engine, Scope::new(), "broken", pos).err().unwrap();
    assert_eq!(*err, EvalAltResult::ErrorParsing("unexpected token".to_string(), pos));
    assert_eq!(err.position(), pos);
}

#[test]
fn file_resolver_moves_runtime_errors_to_the_import() {
    let resolver = FileModuleResolver::new_with_path("scripts");
    let engine = ScriptedEngine::new();
    let pos = Position::new(8, 1);
    let err = resolver.resolve(&engine, Scope::new(), "fails.txt", pos).err().unwrap();
    assert_eq!(*err, EvalAltResult::ErrorRuntime("division by zero".to_string(), pos));
}

#[test]
fn create_module_reports_at_the_start_position() {
    let resolver = FileModuleResolver::new();
    let engine = ScriptedEngine::new();
    let err = resolver.create_module(&engine, Scope::new(), "broken").err().unwrap();
    assert_eq!(*err, EvalAltResult::ErrorParsing("unexpected token".to_string(), Position::start()));
    let module = resolver.create_module(&engine, Scope::new(), "good").ok().unwrap();
    assert!(module.contains_var("answer"));
}

#[test]
fn reposition_keeps_success_and_moves_errors() {
    let ok: FuncReturn<i64> = Ok(5);
    assert_eq!(reposition(ok, Position::new(1, 1)), Ok(5));
    let err: FuncReturn<i64> =
        Err(Box::new(EvalAltResult::ErrorModuleNotFound("m".to_string(), Position::new(9, 9))));
    assert_eq!(
        reposition(err, Position::new(1, 1)),
        Err(Box::new(EvalAltResult::ErrorModuleNotFound("m".to_string(), Position::new(1, 1))))
    );
}

#[test]
fn resolvers_can_be_copied_and_compared() {
    let a = FileModuleResolver::new_with_path_and_extension("scripts", "x");
    let b = a.clone();
    assert_eq!(a, b);
    assert_eq!(b.file_path("m"), "scripts/m.x");
    assert_ne!(a, FileModuleResolver::new());
    assert_eq!(FileModuleResolver::default(), FileModuleResolver::new());
    assert_eq!(FileModuleResolver::new(), FileModuleResolver::new_with_path_and_extension("", "rhai"));

    let mut stored = Module::new();
    stored.set_var("x", 1_i64);
    let mut first = StaticModuleResolver::default();
    first.insert("m".to_string(), stored);
    let mut second = first.clone();
    let mut other = Module::new();
    other.set_var("x", 2_i64);
    second.insert("m".to_string(), other);
    second.insert("n".to_string(), Module::new());
    assert_eq!(first.len(), 1);
    assert_eq!(second.len(), 2);
    assert_eq!(first.find_module("m", Position::none()).ok().unwrap().get_var_value::<i64>("x"), Some(1));
    assert_eq!(second.find_module("m", Position::none()).ok().unwrap().get_var_value::<i64>("x"), Some(2));
}
