use script_modules::callable::{CodeRef, FnDef};
use script_modules::dynamic::Dynamic;
use script_modules::error::{EvalAltResult, FuncReturn};
use script_modules::fn_lib::FunctionsLib;
use script_modules::hash::calc_fn_hash;
use script_modules::module::Module;
use script_modules::scope::{Binding, Engine, Scope, ScopeEntry, AST};
use script_modules::types::{FnAccess, Position};

fn empty_script() -> AST {
    AST::new(CodeRef { id: 0 }, FunctionsLib::new())
}

fn entry(name: &str, value: Binding, alias: Option<&str>) -> ScopeEntry {
    ScopeEntry { name: name.to_string(), value, alias: alias.map(|a| a.to_string()) }
}

/// An engine whose scripts bind what the test tells it to.
struct Binder {
    fail: bool,
}

impl Engine for Binder {
    fn compile_file(&self, _path: &str) -> FuncReturn<AST> {
        Ok(empty_script())
    }

    fn eval_ast_with_scope_raw(&self, scope: &mut Scope, _ast: &AST) -> Result<(), Box<EvalAltResult>> {
        scope.push("answer", 42_i64);
        let at = scope.get_index("answer").unwrap();
        scope.set_entry_alias(at, "answer");
        scope.push("scratch", 1_i64);
        if self.fail {
            Err(Box::new(EvalAltResult::ErrorRuntime("stop".to_string(), Position::new(4, 4))))
        } else {
            Ok(())
        }
    }
}

#[test]
fn script_export_partition() {
    let mut inner = Module::new();
    inner.set_var("deep", true);
    let mut scope = Scope::new();
    scope.push_entry(entry("a", Binding::Normal(Dynamic::Int(1)), Some("exported")));
    scope.push_entry(entry("m", Binding::Module(inner), Some("sub")));
    scope.push_entry(entry("private", Binding::Normal(Dynamic::Int(2)), None));
    let module = Module::from_scope(scope, &empty_script());
    assert_eq!(module.get_var_value::<i64>("exported"), Some(1));
    assert_eq!(module.get_sub_module("sub").unwrap().get_var_value::<bool>("deep"), Some(true));
    assert!(!module.contains_var("private"));
    assert!(!module.contains_sub_module("private"));
    assert!(!module.contains_var("a"));
    assert!(!module.contains_var("sub"));
    assert!(!module.contains_sub_module("exported"));
    assert!(!module.contains_sub_module("m"));
}

#[test]
fn constants_are_exported_as_variables() {
    let mut scope = Scope::new();
    scope.push_constant("limit", 10_i64);
    let at = scope.get_index("limit").unwrap();
    scope.set_entry_alias(at, "LIMIT");
    let module = Module::from_scope(scope, &empty_script());
    assert_eq!(module.get_var_value::<i64>("LIMIT"), Some(10));
    assert!(!module.contains_var("limit"));
}

#[test]
fn later_export_of_the_same_alias_wins() {
    let mut scope = Scope::new();
    scope.push_entry(entry("a", Binding::Normal(Dynamic::Int(1)), Some("x")));
    scope.push_entry(entry("b", Binding::Normal(Dynamic::Int(2)), Some("y")));
    scope.push_entry(entry("c", Binding::Constant(Dynamic::Int(3)), Some("x")));
    let module = Module::from_scope(scope, &empty_script());
    assert_eq!(module.get_var_value::<i64>("x"), Some(3));
    assert_eq!(module.get_var_value::<i64>("y"), Some(2));
}

#[test]
fn unaliased_modules_are_dropped() {
    let mut scope = Scope::new();
    scope.push_module("m", Module::new());
    let module = Module::from_scope(scope, &empty_script());
    assert!(!module.contains_sub_module("m"));
}

#[test]
fn empty_scope_exports_nothing() {
    let module = Module::from_scope(Scope::new(), &empty_script());
    assert!(!module.contains_var(""));
    assert!(!module.contains_sub_module(""));
}

#[test]
fn exported_module_is_not_indexed() {
    let mut scope = Scope::new();
    scope.push_entry(entry("a", Binding::Normal(Dynamic::Int(1)), Some("x")));
    let mut module = Module::from_scope(scope, &empty_script());
    let key = calc_fn_hash(&["root"], "x", 0, &[]);
    assert!(module.get_qualified_var_mut("x", key, Position::none()).is_err());
    module.index_all_sub_modules();
    assert_eq!(*module.get_qualified_var_mut("x", key, Position::none()).unwrap(), Dynamic::Int(1));
}

#[test]
fn script_functions_are_merged_into_the_module() {
    let mut lib = FunctionsLib::new();
    let key = lib.add(FnDef {
        name: "twice".to_string(),
        access: FnAccess::Public,
        params: vec!["x".to_string()],
        body: CodeRef { id: 3 },
    });
    assert_eq!(key, calc_fn_hash(&[], "twice", 1, &[]));
    let ast = AST::new(CodeRef { id: 9 }, lib);
    assert_eq!(ast.code(), CodeRef { id: 9 });
    assert_eq!(ast.fn_lib().len(), 1);
    let mut module = Module::from_scope(Scope::new(), &ast);
    module.index_all_sub_modules();
    let qualified = calc_fn_hash(&["root"], "twice", 1, &[]);
    let f = module.get_qualified_fn("twice", qualified).ok().unwrap();
    assert_eq!(f.get_fn_def().unwrap().body, CodeRef { id: 3 });
}

#[test]
fn scope_finds_the_last_binding_of_a_name() {
    let mut scope = Scope::new();
    assert_eq!(scope.len(), 0);
    assert_eq!(scope.get_index("x"), None);
    scope.push("x", 1_i64);
    scope.push("y", 2_i64);
    scope.push("x", 3_i64);
    assert_eq!(scope.len(), 3);
    assert_eq!(scope.get_index("x"), Some(2));
    assert_eq!(scope.get_index("y"), Some(1));
    assert_eq!(scope.get_index("z"), None);
    scope.set_entry_alias(0, "first");
    let module = Module::from_scope(scope, &empty_script());
    assert_eq!(module.get_var_value::<i64>("first"), Some(1));
    assert!(!module.contains_var("x"));
}

#[test]
fn eval_ast_as_new_exports_what_the_script_left() {
    let mut scope = Scope::new();
    scope.push("given", 0_i64);
    let module = Module::eval_ast_as_new(scope, &empty_script(), &Binder { fail: false }).ok().unwrap();
    assert_eq!(module.get_var_value::<i64>("answer"), Some(42));
    assert!(!module.contains_var("scratch"));
    assert!(!module.contains_var("given"));
}

#[test]
fn eval_ast_as_new_makes_no_module_of_a_failed_script() {
    let err = Module::eval_ast_as_new(Scope::new(), &empty_script(), &Binder { fail: true }).err().unwrap();
    assert_eq!(*err, EvalAltResult::ErrorRuntime("stop".to_string(), Position::new(4, 4)));
}

#[test]
fn functions_lib_replaces_by_name_and_arity() {
    let def = |name: &str, params: &[&str], body: u64| FnDef {
        name: name.to_string(),
        access: FnAccess::Public,
        params: params.iter().map(|p| p.to_string()).collect(),
        body: CodeRef { id: body },
    };
    let mut lib = FunctionsLib::new();
    assert!(lib.is_empty());
    let one = lib.add(def("f", &["a"], 1));
    let two = lib.add(def("f", &["a", "b"], 2));
    let again = lib.add(def("f", &["z"], 3));
    assert_eq!(one, again);
    assert_ne!(one, two);
    assert_eq!(lib.len(), 2);
    assert!(lib.has_function(one));
    assert!(!lib.has_function(one ^ two));
    assert_eq!(lib.get_function(one).unwrap().body, CodeRef { id: 3 });
    assert_eq!(lib.get_function(two).unwrap().body, CodeRef { id: 2 });
    assert_eq!(lib.entry(0).0, one);
    assert_eq!(lib.entry(1).1.body, CodeRef { id: 2 });
    assert_eq!(lib.shared(0).body, CodeRef { id: 3 });

    let mut other = FunctionsLib::new();
    other.add(def("f", &["q"], 4));
    other.add(def("g", &[], 5));
    let merged = lib.merge(&other);
    assert_eq!(merged.len(), 3);
    assert_eq!(merged.get_function(one).unwrap().body, CodeRef { id: 4 });
    assert_eq!(merged.get_function(two).unwrap().body, CodeRef { id: 2 });
    assert_eq!(lib.get_function(one).unwrap().body, CodeRef { id: 3 });
    assert_eq!(lib.clone().len(), 2);
}

#[test]
fn from_run_passes_a_failure_on_and_exports_after_success() {
    let mut scope = Scope::new();
    scope.push_entry(entry("a", Binding::Normal(Dynamic::Int(1)), Some("x")));
    let failed = Err(Box::new(EvalAltResult::ErrorRuntime("stop".to_string(), Position::new(2, 3))));
    let err = Module::from_run(failed, scope, &empty_script()).err().unwrap();
    assert_eq!(*err, EvalAltResult::ErrorRuntime("stop".to_string(), Position::new(2, 3)));

    let mut scope = Scope::new();
    scope.push_entry(entry("a", Binding::Normal(Dynamic::Int(1)), Some("x")));
    let module = Module::from_run(Ok(()), scope, &empty_script()).ok().unwrap();
    assert_eq!(module.get_var_value::<i64>("x"), Some(1));
}
