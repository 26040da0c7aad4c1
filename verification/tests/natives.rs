use script_modules::callable::CallableFunction;
use script_modules::dynamic::Dynamic;
use script_modules::error::{EvalAltResult, FuncReturn};
use script_modules::hash::calc_fn_hash;
use script_modules::module::Module;
use script_modules::native::{lift, take_arg};
use script_modules::types::{Position, TypeId};

fn call(f: &CallableFunction, args: &mut Vec<Dynamic>) -> FuncReturn<Dynamic> {
    f.get_native_fn().unwrap().call(args)
}

fn text(s: &str) -> Dynamic {
    Dynamic::Str(s.to_string())
}

#[test]
fn set_fn_0_registers_a_public_function_without_parameters() {
    let mut m = Module::new();
    let h = m.set_fn_0("calc", || -> FuncReturn<i64> { Ok(42) });
    assert_eq!(h, calc_fn_hash(&[], "calc", 0, &[]));
    assert!(m.get_fn(h).unwrap().is_pure());
    let mut args = Vec::new();
    assert_eq!(call(m.get_fn(h).unwrap(), &mut args), Ok(Dynamic::Int(42)));
    m.index_all_sub_modules();
    let key = calc_fn_hash(&["root"], "calc", 0, &[]) ^ calc_fn_hash(&[], "", 0, &[]);
    assert!(m.get_qualified_fn("calc", key).is_ok());
}

#[test]
fn set_fn_1_hands_the_argument_over_by_value() {
    let mut m = Module::new();
    let h = m.set_fn_1("calc", |x: i64| -> FuncReturn<i64> { Ok(x + 1) });
    assert_eq!(h, calc_fn_hash(&[], "calc", 1, &[]));
    let mut args = vec![Dynamic::Int(41)];
    assert_eq!(call(m.get_fn(h).unwrap(), &mut args), Ok(Dynamic::Int(42)));
    assert_eq!(args, vec![Dynamic::Unit]);
    m.index_all_sub_modules();
    let key = calc_fn_hash(&["root"], "calc", 1, &[]) ^ calc_fn_hash(&[], "", 0, &[TypeId::new(2)]);
    assert!(m.get_qualified_fn("calc", key).is_ok());
    let wrong = calc_fn_hash(&["root"], "calc", 1, &[]) ^ calc_fn_hash(&[], "", 0, &[TypeId::new(4)]);
    assert!(m.get_qualified_fn("calc", wrong).is_err());
}

#[test]
fn set_fn_1_mut_leaves_the_changed_argument_in_place() {
    let mut m = Module::new();
    let h = m.set_fn_1_mut("calc", |x: &mut i64| -> FuncReturn<i64> {
        *x += 1;
        Ok(*x * 2)
    });
    assert!(m.get_fn(h).unwrap().is_method());
    let mut args = vec![Dynamic::Int(4)];
    assert_eq!(call(m.get_fn(h).unwrap(), &mut args), Ok(Dynamic::Int(10)));
    assert_eq!(args, vec![Dynamic::Int(5)]);
}

#[test]
fn set_fn_2_keeps_the_order_of_the_arguments() {
    let mut m = Module::new();
    let h = m.set_fn_2("calc", |x: i64, y: String| -> FuncReturn<String> {
        Ok(format!("{}:{}", x, y))
    });
    assert_eq!(h, calc_fn_hash(&[], "calc", 2, &[]));
    let mut args = vec![Dynamic::Int(7), text("seven")];
    assert_eq!(call(m.get_fn(h).unwrap(), &mut args), Ok(text("7:seven")));
    assert_eq!(args, vec![Dynamic::Unit, Dynamic::Unit]);
    m.index_all_sub_modules();
    let types = [TypeId::new(2), TypeId::new(4)];
    let key = calc_fn_hash(&["root"], "calc", 2, &[]) ^ calc_fn_hash(&[], "", 0, &types);
    assert!(m.get_qualified_fn("calc", key).is_ok());
    let swapped = [TypeId::new(4), TypeId::new(2)];
    let other = calc_fn_hash(&["root"], "calc", 2, &[]) ^ calc_fn_hash(&[], "", 0, &swapped);
    assert!(m.get_qualified_fn("calc", other).is_err());
}

#[test]
fn set_fn_2_mut_changes_the_first_and_takes_the_second() {
    let mut m = Module::new();
    let h = m.set_fn_2_mut("calc", |x: &mut i64, y: String| -> FuncReturn<i64> {
        *x += y.len() as i64;
        Ok(*x)
    });
    assert!(m.get_fn(h).unwrap().is_method());
    let mut args = vec![Dynamic::Int(10), text("abc")];
    assert_eq!(call(m.get_fn(h).unwrap(), &mut args), Ok(Dynamic::Int(13)));
    assert_eq!(args, vec![Dynamic::Int(13), Dynamic::Unit]);
}

#[test]
fn set_fn_3_keeps_the_order_of_the_arguments() {
    let mut m = Module::new();
    let h = m.set_fn_3("calc", |x: i64, y: String, z: i64| -> FuncReturn<i64> {
        Ok(x * 100 + y.len() as i64 * 10 + z)
    });
    assert_eq!(h, calc_fn_hash(&[], "calc", 3, &[]));
    let mut args = vec![Dynamic::Int(1), text("ab"), Dynamic::Int(3)];
    assert_eq!(call(m.get_fn(h).unwrap(), &mut args), Ok(Dynamic::Int(123)));
    assert_eq!(args, vec![Dynamic::Unit, Dynamic::Unit, Dynamic::Unit]);
}

#[test]
fn set_fn_3_mut_changes_the_first_and_takes_the_others() {
    let mut m = Module::new();
    let h = m.set_fn_3_mut("calc", |x: &mut String, y: char, z: bool| -> FuncReturn<()> {
        if z {
            x.push(y);
        }
        Ok(())
    });
    let mut args = vec![text("ab"), Dynamic::Char('c'), Dynamic::Bool(true)];
    assert_eq!(call(m.get_fn(h).unwrap(), &mut args), Ok(Dynamic::Unit));
    assert_eq!(args, vec![text("abc"), Dynamic::Unit, Dynamic::Unit]);
}

#[test]
fn host_errors_come_back_unchanged() {
    let mut m = Module::new();
    let h = m.set_fn_1("fail", |x: i64| -> FuncReturn<i64> {
        Err(Box::new(EvalAltResult::ErrorRuntime(format!("no {}", x), Position::new(1, 2))))
    });
    let mut args = vec![Dynamic::Int(3)];
    assert_eq!(
        call(m.get_fn(h).unwrap(), &mut args),
        Err(Box::new(EvalAltResult::ErrorRuntime("no 3".to_string(), Position::new(1, 2))))
    );
}

#[test]
fn wrappers_of_one_name_and_arity_replace_each_other() {
    let mut m = Module::new();
    let a = m.set_fn_1("calc", |x: i64| -> FuncReturn<i64> { Ok(x) });
    let b = m.set_fn_1("calc", |x: String| -> FuncReturn<i64> { Ok(x.len() as i64) });
    assert_eq!(a, b);
    let mut args = vec![text("four")];
    assert_eq!(call(m.get_fn(a).unwrap(), &mut args), Ok(Dynamic::Int(4)));
}

#[test]
fn take_arg_and_lift() {
    let mut args = vec![Dynamic::Int(1), Dynamic::Bool(true)];
    let b: bool = take_arg(&mut args, 1);
    assert!(b);
    assert_eq!(args, vec![Dynamic::Int(1), Dynamic::Unit]);
    assert_eq!(lift::<i64>(Ok(3)), Ok(Dynamic::Int(3)));
    let e = || Box::new(EvalAltResult::ErrorRuntime("x".to_string(), Position::none()));
    assert_eq!(lift::<i64>(Err(e())), Err(e()));
}
