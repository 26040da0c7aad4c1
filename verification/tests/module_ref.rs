use script_modules::error::EvalAltResult;
use script_modules::hash::calc_fn_hash;
use script_modules::module_ref::ModuleRef;
use script_modules::types::Position;

fn chain(names: &[&str]) -> ModuleRef {
    ModuleRef::from(
        names.iter().enumerate().map(|(i, n)| (n.to_string(), Position::new(1, i as u16))).collect(),
    )
}

#[test]
fn qualifier_chain_is_written_with_double_colons_between_names() {
    assert_eq!(chain(&["a", "b", "c"]).to_string(), "a::b::c");
    assert_eq!(chain(&["single"]).to_string(), "single");
    assert_eq!(chain(&[]).to_string(), "");
    assert_eq!(chain(&["größe", "x"]).to_string(), "größe::x");
}

#[test]
fn qualifier_chain_keeps_names_and_positions() {
    let r = chain(&["a", "b"]);
    assert_eq!(r.len(), 2);
    assert_eq!(r.name(0), "a");
    assert_eq!(r.name(1), "b");
    assert_eq!(r.position(1), Position::new(1, 1));
    assert_eq!(r.names(), vec!["a", "b"]);
}

#[test]
fn resolved_index_is_kept_until_it_is_reset() {
    let mut r = chain(&["a"]);
    assert_eq!(r.index(), None);
    r.set_index(Some(3));
    assert_eq!(r.index(), Some(3));
    assert_eq!(r.to_string(), "a");
    let copy = r.clone();
    assert_eq!(copy.index(), Some(3));
    assert_eq!(copy.name(0), "a");
    r.set_index(None);
    assert_eq!(r.index(), None);
    assert_eq!(copy.index(), Some(3));
}

#[test]
fn chain_names_give_the_fingerprint_of_a_qualified_name() {
    let r = chain(&["root", "a", "b"]);
    assert_eq!(
        calc_fn_hash(&r.names(), "x", 0, &[]),
        calc_fn_hash(&["root", "a", "b"], "x", 0, &[])
    );
}

#[test]
fn positions_and_errors() {
    assert!(Position::none().is_none());
    assert!(!Position::start().is_none());
    assert_eq!(Position::start(), Position::new(1, 0));
    assert_eq!(Position::default(), Position::start());
    assert_eq!(Position::none(), Position::new(0, 0));
    let kinds = [
        EvalAltResult::ErrorParsing("p".to_string(), Position::new(1, 1)),
        EvalAltResult::ErrorVariableNotFound("v".to_string(), Position::new(1, 1)),
        EvalAltResult::ErrorFunctionNotFound("f".to_string(), Position::new(1, 1)),
        EvalAltResult::ErrorModuleNotFound("m".to_string(), Position::new(1, 1)),
        EvalAltResult::ErrorRuntime("r".to_string(), Position::new(1, 1)),
    ];
    let moved = [
        EvalAltResult::ErrorParsing("p".to_string(), Position::new(5, 6)),
        EvalAltResult::ErrorVariableNotFound("v".to_string(), Position::new(5, 6)),
        EvalAltResult::ErrorFunctionNotFound("f".to_string(), Position::new(5, 6)),
        EvalAltResult::ErrorModuleNotFound("m".to_string(), Position::new(5, 6)),
        EvalAltResult::ErrorRuntime("r".to_string(), Position::new(5, 6)),
    ];
    for (kind, expected) in kinds.into_iter().zip(moved) {
        assert_eq!(kind.position(), Position::new(1, 1));
        let after = Box::new(kind).new_position(Position::new(5, 6));
        assert_eq!(after.position(), Position::new(5, 6));
        assert_eq!(*after, expected);
    }
}

#[test]
fn chains_are_equal_when_names_positions_and_index_agree() {
    let a = chain(&["a", "b"]);
    let mut b = chain(&["a", "b"]);
    assert!(a == b);
    b.set_index(Some(1));
    assert!(a != b);
    b.set_index(None);
    assert!(a == b);
    assert!(a != chain(&["a"]));
    assert!(a != chain(&["a", "c"]));
    let moved = ModuleRef::from(vec![
        ("a".to_string(), Position::new(1, 0)),
        ("b".to_string(), Position::new(2, 1)),
    ]);
    assert!(a != moved);
    assert!(ModuleRef::default() == chain(&[]));
    assert_eq!(ModuleRef::default().len(), 0);
}
