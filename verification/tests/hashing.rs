use script_modules::hash::{calc_args_hash, calc_def_hash, calc_fn_hash, calc_native_key};
use script_modules::types::TypeId;
use std::collections::hash_map::DefaultHasher;
use std::hash::Hasher;

fn digest(chunks: &[Vec<u8>]) -> u64 {
    let mut h = DefaultHasher::new();
    for c in chunks {
        h.write(c);
    }
    h.finish()
}

#[test]
fn fingerprint_is_the_digest_of_the_stated_input() {
    let expected = digest(&[
        b"root\xff".to_vec(),
        b"a\xff".to_vec(),
        b"x".to_vec(),
        0u64.to_le_bytes().to_vec(),
    ]);
    assert_eq!(calc_fn_hash(&["root", "a"], "x", 0, &[]), expected);
}

#[test]
fn fingerprint_holds_arity_and_type_codes_as_little_endian_words() {
    let expected = digest(&[
        b"calc".to_vec(),
        2u64.to_le_bytes().to_vec(),
        7u64.to_le_bytes().to_vec(),
        0x0102_0304_0506_0708u64.to_le_bytes().to_vec(),
    ]);
    let got = calc_fn_hash(&[], "calc", 2, &[TypeId::new(7), TypeId::new(0x0102_0304_0506_0708)]);
    assert_eq!(got, expected);
}

#[test]
fn fingerprint_of_non_ascii_names_hashes_their_utf8_bytes() {
    let mut qualifier = "módulo".as_bytes().to_vec();
    qualifier.push(0xff);
    let expected = digest(&[qualifier, "größe".as_bytes().to_vec(), 1u64.to_le_bytes().to_vec()]);
    assert_eq!(calc_fn_hash(&["módulo"], "größe", 1, &[]), expected);
}

#[test]
fn fingerprint_is_deterministic() {
    let a = calc_fn_hash(&["root", "a", "b"], "x", 0, &[]);
    let b = calc_fn_hash(&["root", "a", "b"], "x", 0, &[]);
    assert_eq!(a, b);
}

#[test]
fn fingerprint_depends_on_qualifier_order() {
    let a = calc_fn_hash(&["root", "a", "b"], "x", 0, &[]);
    let b = calc_fn_hash(&["root", "b", "a"], "x", 0, &[]);
    assert_ne!(a, b);
}

#[test]
fn fingerprint_depends_on_type_order() {
    let a = calc_fn_hash(&[], "", 0, &[TypeId::new(2), TypeId::new(4)]);
    let b = calc_fn_hash(&[], "", 0, &[TypeId::new(4), TypeId::new(2)]);
    assert_ne!(a, b);
}

#[test]
fn fingerprint_tells_qualifier_boundaries_apart() {
    let a = calc_fn_hash(&["ab", "c"], "x", 0, &[]);
    let b = calc_fn_hash(&["a", "bc"], "x", 0, &[]);
    assert_ne!(a, b);
}

#[test]
fn fingerprint_depends_on_name_and_arity() {
    let base = calc_fn_hash(&[], "calc", 1, &[]);
    assert_ne!(base, calc_fn_hash(&[], "calc", 2, &[]));
    assert_ne!(base, calc_fn_hash(&[], "calk", 1, &[]));
}

#[test]
fn qualified_key_halves_can_be_computed_apart() {
    let types = [TypeId::new(2), TypeId::new(4)];
    let def = calc_fn_hash(&["root", "m"], "calc", 2, &[]);
    let args = calc_fn_hash(&[], "", 0, &types);
    let key = def ^ args;
    assert_eq!(key ^ args, def);
    assert_eq!(key ^ def, args);
    let other = calc_fn_hash(&[], "", 0, &[TypeId::new(4), TypeId::new(4)]);
    assert_ne!(key, def ^ other);
}

#[test]
fn definition_and_argument_fingerprints_are_the_two_modes_of_the_hash() {
    let types = [TypeId::new(2), TypeId::new(4)];
    assert_eq!(calc_def_hash(&["root", "m"], "calc", 2), calc_fn_hash(&["root", "m"], "calc", 2, &[]));
    assert_eq!(calc_args_hash(&types), calc_fn_hash(&[], "", 0, &types));
    assert_eq!(
        calc_native_key(&["root", "m"], "calc", &types),
        calc_def_hash(&["root", "m"], "calc", 2) ^ calc_args_hash(&types)
    );
    assert_ne!(
        calc_native_key(&["root", "m"], "calc", &types),
        calc_native_key(&["root", "m"], "calc", &[TypeId::new(4), TypeId::new(2)])
    );
}
