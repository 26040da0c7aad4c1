use script_modules::callable::{CallableFunction, CodeRef, FnDef, NativeCall};
use script_modules::dynamic::Dynamic;
use script_modules::error::{EvalAltResult, FuncReturn};
use script_modules::fn_lib::FunctionsLib;
use script_modules::hash::calc_fn_hash;
use script_modules::module::Module;
use script_modules::types::{FnAccess, Position, TypeId};

struct Constant(i64);

impl NativeCall for Constant {
    fn call(&self, _args: &mut Vec<Dynamic>) -> FuncReturn<Dynamic> {
        Ok(Dynamic::Int(self.0))
    }
}

fn call_no_args(f: &CallableFunction) -> Dynamic {
    let mut args = Vec::new();
    f.get_native_fn().unwrap().call(&mut args).unwrap()
}

fn native_key(qualifiers: &[&str], name: &str, params: &[TypeId]) -> u64 {
    calc_fn_hash(qualifiers, name, params.len(), &[]) ^ calc_fn_hash(&[], "", 0, params)
}

fn script_fn(name: &str, access: FnAccess, params: &[&str], body: u64) -> FnDef {
    FnDef {
        name: name.to_string(),
        access,
        params: params.iter().map(|p| p.to_string()).collect(),
        body: CodeRef { id: body },
    }
}

fn nested() -> Module {
    let mut b = Module::new();
    b.set_var("x", 42_i64);
    let mut a = Module::new();
    a.set_sub_module("b", b);
    let mut root = Module::new();
    root.set_sub_module("a", a);
    root
}

#[test]
fn nesting_round_trip() {
    let mut root = nested();
    root.index_all_sub_modules();
    let key = calc_fn_hash(&["root", "a", "b"], "x", 0, &[]);
    assert_eq!(*root.get_qualified_var_mut("x", key, Position::new(3, 4)).unwrap(), Dynamic::Int(42));
    let short = calc_fn_hash(&["root", "a"], "x", 0, &[]);
    let err = root.get_qualified_var_mut("a::x", short, Position::new(3, 4)).unwrap_err();
    assert_eq!(*err, EvalAltResult::ErrorVariableNotFound("a::x".to_string(), Position::new(3, 4)));
}

#[test]
fn root_qualifier_is_part_of_the_fingerprint() {
    let mut root = nested();
    root.set_var("top", 1_i64);
    root.index_all_sub_modules();
    let with_root = calc_fn_hash(&["root"], "top", 0, &[]);
    let without = calc_fn_hash(&[], "top", 0, &[]);
    assert!(root.get_qualified_var_mut("top", with_root, Position::none()).is_ok());
    assert!(root.get_qualified_var_mut("top", without, Position::none()).is_err());
    let unrooted = calc_fn_hash(&["a", "b"], "x", 0, &[]);
    assert!(root.get_qualified_var_mut("x", unrooted, Position::none()).is_err());
}

#[test]
fn nothing_is_indexed_before_indexing() {
    let mut root = nested();
    let key = calc_fn_hash(&["root", "a", "b"], "x", 0, &[]);
    assert!(root.get_qualified_var_mut("x", key, Position::none()).is_err());
    assert!(root.get_qualified_fn("f", key).is_err());
}

#[test]
fn assignment_through_a_qualified_variable_stays_in_the_index() {
    let mut root = nested();
    root.index_all_sub_modules();
    let key = calc_fn_hash(&["root", "a", "b"], "x", 0, &[]);
    *root.get_qualified_var_mut("x", key, Position::none()).unwrap() = Dynamic::Int(7);
    assert_eq!(*root.get_qualified_var_mut("x", key, Position::none()).unwrap(), Dynamic::Int(7));
    let local = root.get_sub_module("a").unwrap().get_sub_module("b").unwrap();
    assert_eq!(local.get_var_value::<i64>("x"), Some(42));
}

#[test]
fn private_functions_are_not_indexed() {
    let mut m = Module::new();
    let private = m.set_fn("calc", FnAccess::Private, &[], CallableFunction::from_pure(Box::new(Constant(1))));
    let public = m.set_fn(
        "calc",
        FnAccess::Public,
        &[TypeId::new(2)],
        CallableFunction::from_pure(Box::new(Constant(2))),
    );
    assert_ne!(private, public);
    m.index_all_sub_modules();
    let public_key = native_key(&["root"], "calc", &[TypeId::new(2)]);
    let private_key = native_key(&["root"], "calc", &[]);
    assert_eq!(call_no_args(m.get_qualified_fn("calc", public_key).unwrap()), Dynamic::Int(2));
    let err = m.get_qualified_fn("calc", private_key).err().unwrap();
    assert_eq!(*err, EvalAltResult::ErrorFunctionNotFound("calc".to_string(), Position::none()));
    assert_eq!(call_no_args(m.get_fn(private).unwrap()), Dynamic::Int(1));
    assert_eq!(call_no_args(m.get_fn(public).unwrap()), Dynamic::Int(2));
}

#[test]
fn overloads_have_distinct_qualified_keys() {
    let int = [TypeId::new(2)];
    let text = [TypeId::new(4)];
    let int_key = native_key(&["root", "ints"], "calc", &int);
    let text_key = native_key(&["root", "ints"], "calc", &text);
    assert_ne!(int_key, text_key);
    let int_key = native_key(&["root"], "calc", &int);
    let text_key = native_key(&["root"], "calc", &text);
    assert_ne!(int_key, text_key);

    let mut m = Module::new();
    m.set_fn("calc", FnAccess::Public, &int, CallableFunction::from_pure(Box::new(Constant(1))));
    m.index_all_sub_modules();
    assert_eq!(call_no_args(m.get_qualified_fn("calc", int_key).unwrap()), Dynamic::Int(1));
    assert!(m.get_qualified_fn("calc", text_key).is_err());

    m.set_fn("calc", FnAccess::Public, &text, CallableFunction::from_pure(Box::new(Constant(2))));
    m.index_all_sub_modules();
    assert_eq!(call_no_args(m.get_qualified_fn("calc", text_key).unwrap()), Dynamic::Int(2));
    assert!(m.get_qualified_fn("calc", int_key).is_err());
}

#[test]
fn overloads_in_sibling_modules_resolve_to_their_own_functions() {
    let int = [TypeId::new(2)];
    let text = [TypeId::new(4)];
    let mut ints = Module::new();
    ints.set_fn("calc", FnAccess::Public, &int, CallableFunction::from_pure(Box::new(Constant(1))));
    let mut texts = Module::new();
    texts.set_fn("calc", FnAccess::Public, &text, CallableFunction::from_pure(Box::new(Constant(2))));
    let mut root = Module::new();
    root.set_sub_module("ints", ints);
    root.set_sub_module("texts", texts);
    root.index_all_sub_modules();
    let int_key = native_key(&["root", "ints"], "calc", &int);
    let text_key = native_key(&["root", "texts"], "calc", &text);
    assert_ne!(int_key, text_key);
    assert_eq!(call_no_args(root.get_qualified_fn("calc", int_key).unwrap()), Dynamic::Int(1));
    assert_eq!(call_no_args(root.get_qualified_fn("calc", text_key).unwrap()), Dynamic::Int(2));
    assert!(root.get_qualified_fn("calc", native_key(&["root", "ints"], "calc", &text)).is_err());
}

#[test]
fn reindexing_without_change_gives_the_same_index() {
    let mut root = nested();
    root.set_fn("calc", FnAccess::Public, &[], CallableFunction::from_pure(Box::new(Constant(3))));
    root.index_all_sub_modules();
    let var_key = calc_fn_hash(&["root", "a", "b"], "x", 0, &[]);
    let fn_key = native_key(&["root"], "calc", &[]);
    let first_var = root.get_qualified_var_mut("x", var_key, Position::none()).unwrap().clone();
    let first_fn = call_no_args(root.get_qualified_fn("calc", fn_key).unwrap());
    root.index_all_sub_modules();
    assert_eq!(*root.get_qualified_var_mut("x", var_key, Position::none()).unwrap(), first_var);
    assert_eq!(call_no_args(root.get_qualified_fn("calc", fn_key).unwrap()), first_fn);
    let other = calc_fn_hash(&["root", "a"], "x", 0, &[]);
    assert!(root.get_qualified_var_mut("x", other, Position::none()).is_err());
}

#[test]
fn reindexing_drops_what_is_no_longer_there() {
    let mut root = nested();
    root.index_all_sub_modules();
    let key = calc_fn_hash(&["root", "a", "b"], "x", 0, &[]);
    assert!(root.get_qualified_var_mut("x", key, Position::none()).is_ok());
    root.set_sub_module("a", Module::new());
    assert!(root.get_qualified_var_mut("x", key, Position::none()).is_ok());
    root.index_all_sub_modules();
    assert!(root.get_qualified_var_mut("x", key, Position::none()).is_err());
}

#[test]
fn variable_added_after_indexing_is_not_found_until_reindexed() {
    let mut root = nested();
    root.index_all_sub_modules();
    root.set_var("late", 5_i64);
    let key = calc_fn_hash(&["root"], "late", 0, &[]);
    assert!(root.contains_var("late"));
    let err = root.get_qualified_var_mut("late", key, Position::new(1, 2)).unwrap_err();
    assert_eq!(*err, EvalAltResult::ErrorVariableNotFound("late".to_string(), Position::new(1, 2)));
    root.index_all_sub_modules();
    assert_eq!(*root.get_qualified_var_mut("late", key, Position::new(1, 2)).unwrap(), Dynamic::Int(5));
}

#[test]
fn sub_modules_are_indexed_under_their_own_paths() {
    let mut left = Module::new();
    left.set_var("v", 1_i64);
    let mut right = Module::new();
    right.set_var("v", 2_i64);
    let mut root = Module::new();
    root.set_var("v", 0_i64);
    root.set_sub_module("left", left);
    root.set_sub_module("right", right);
    root.index_all_sub_modules();
    let at = |q: &[&str]| calc_fn_hash(q, "v", 0, &[]);
    assert_eq!(*root.get_qualified_var_mut("v", at(&["root"]), Position::none()).unwrap(), Dynamic::Int(0));
    assert_eq!(
        *root.get_qualified_var_mut("v", at(&["root", "left"]), Position::none()).unwrap(),
        Dynamic::Int(1)
    );
    assert_eq!(
        *root.get_qualified_var_mut("v", at(&["root", "right"]), Position::none()).unwrap(),
        Dynamic::Int(2)
    );
}

#[test]
fn public_script_functions_are_indexed_by_name_and_arity() {
    let mut lib = FunctionsLib::new();
    lib.add(script_fn("visible", FnAccess::Public, &["a", "b"], 1));
    lib.add(script_fn("hidden", FnAccess::Private, &["a"], 2));
    let mut sub = Module::new();
    sub.merge_fn_lib(&lib);
    let mut root = Module::new();
    root.set_sub_module("lib", sub);
    root.index_all_sub_modules();
    let visible = calc_fn_hash(&["root", "lib"], "visible", 2, &[]);
    let hidden = calc_fn_hash(&["root", "lib"], "hidden", 1, &[]);
    let found = root.get_qualified_fn("visible", visible).unwrap();
    assert!(found.is_script());
    assert_eq!(found.get_fn_def().unwrap().name, "visible");
    assert_eq!(found.get_fn_def().unwrap().body, CodeRef { id: 1 });
    assert!(root.get_qualified_fn("hidden", hidden).is_err());
    assert!(root.get_qualified_fn("visible", calc_fn_hash(&["root", "lib"], "visible", 1, &[])).is_err());
}

#[test]
fn deep_trees_are_walked_to_the_leaves() {
    let mut m = Module::new();
    m.set_var("leaf", 0_i64);
    let names = ["d", "c", "b", "a"];
    for name in names {
        let mut parent = Module::new();
        parent.set_sub_module(name, m);
        m = parent;
    }
    m.index_all_sub_modules();
    let key = calc_fn_hash(&["root", "a", "b", "c", "d"], "leaf", 0, &[]);
    assert_eq!(*m.get_qualified_var_mut("leaf", key, Position::none()).unwrap(), Dynamic::Int(0));
}

#[test]
fn private_function_beside_a_public_one_of_another_arity_has_no_qualified_key() {
    let int = TypeId::new(2);
    let mut m = Module::new();
    m.set_fn("f", FnAccess::Private, &[int], CallableFunction::from_pure(Box::new(Constant(1))));
    m.set_fn_2("f", |a: i64, b: i64| -> FuncReturn<i64> { Ok(a + b) });
    m.index_all_sub_modules();
    let private_key = calc_fn_hash(&["root"], "f", 1, &[]) ^ calc_fn_hash(&[], "", 0, &[int]);
    let err = m.get_qualified_fn("f", private_key).err().unwrap();
    assert_eq!(*err, EvalAltResult::ErrorFunctionNotFound("f".to_string(), Position::none()));
    assert_eq!(err.position(), Position::new(0, 0));
    let public_key = native_key(&["root"], "f", &[int, int]);
    assert!(m.get_qualified_fn("f", public_key).is_ok());
}
