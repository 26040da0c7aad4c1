//! Fingerprints: 64-bit keys for qualified variables and function signatures.

use vstd::prelude::*;
use vstd::bytes::*;
use vstd::slice::*;
use vstd::std_specs::hash::*;
use vstd::string::*;
use vstd::utf8::*;
use std::collections::hash_map::DefaultHasher;
use std::hash::Hasher;
use crate::types::TypeId;

verus! {

/// The byte that closes each qualifier in the hashed input.
pub const QUALIFIER_END: u8 = 0xff;

/// The characters of each name in `names`.
pub open spec fn names_of(names: Seq<&str>) -> Seq<Seq<char>> {
    names.map_values(|s: &str| s@)
}

/// What is fed to the hasher, write by write: each qualifier's UTF-8 bytes
/// closed by `QUALIFIER_END`, then the name's UTF-8 bytes, the arity as a
/// little-endian `u64`, and each type token's code as a little-endian `u64`.
pub open spec fn hash_input(
    qualifiers: Seq<Seq<char>>,
    name: Seq<char>,
    arity: usize,
    type_ids: Seq<TypeId>,
) -> Seq<Seq<u8>> {
    Seq::new(qualifiers.len(), |i: int| encode_utf8(qualifiers[i]).push(QUALIFIER_END))
        + seq![encode_utf8(name), spec_u64_to_le_bytes(arity as u64)]
        + Seq::new(type_ids.len(), |i: int| spec_u64_to_le_bytes(type_ids[i].code))
}

/// The fingerprint of a qualifier path, a name, an arity and a list of type
/// tokens: the standard hasher's digest of `hash_input`.
pub open spec fn fn_hash(
    qualifiers: Seq<Seq<char>>,
    name: Seq<char>,
    arity: usize,
    type_ids: Seq<TypeId>,
) -> u64 {
    DefaultHasher::spec_finish(hash_input(qualifiers, name, arity, type_ids))
}

/// The fingerprint of a definition: qualifiers, name and arity, no type tokens.
pub open spec fn def_hash(qualifiers: Seq<Seq<char>>, name: Seq<char>, arity: usize) -> u64 {
    fn_hash(qualifiers, name, arity, Seq::empty())
}

/// The fingerprint of an argument list: its type tokens alone.
pub open spec fn args_hash(type_ids: Seq<TypeId>) -> u64 {
    fn_hash(Seq::empty(), Seq::empty(), 0, type_ids)
}

/// The key under which a native function is found through a qualified path:
/// the definition fingerprint combined by XOR with that of its parameter types.
pub open spec fn native_key(
    qualifiers: Seq<Seq<char>>,
    name: Seq<char>,
    type_ids: Seq<TypeId>,
) -> u64 {
    def_hash(qualifiers, name, type_ids.len() as usize) ^ args_hash(type_ids)
}

/// Computes the fingerprint of `qualifiers`, `name`, `arity` and `type_ids`.
///
/// The result depends on the order of the qualifiers and of the type tokens.
pub fn calc_fn_hash(qualifiers: &[&str], name: &str, arity: usize, type_ids: &[TypeId]) -> (h: u64)
    ensures
        h == fn_hash(names_of(qualifiers@), name@, arity, type_ids@),
{
    let ghost quals = names_of(qualifiers@);
    let ghost head = Seq::new(quals.len(), |i: int| encode_utf8(quals[i]).push(QUALIFIER_END));
    let ghost tail = Seq::new(
        type_ids@.len(),
        |i: int| spec_u64_to_le_bytes(type_ids@[i].code),
    );
    let mut hasher = DefaultHasher::new();
    let mut i: usize = 0;
    while i < qualifiers.len()
        invariant
            i <= qualifiers.len(),
            quals == names_of(qualifiers@),
            head == Seq::new(quals.len(), |i: int| encode_utf8(quals[i]).push(QUALIFIER_END)),
            hasher@ == head.subrange(0, i as int),
        decreases qualifiers.len() - i,
    {
        let mut chunk = qualifiers[i].as_bytes_vec();
        chunk.push(QUALIFIER_END);
        hasher.write(chunk.as_slice());
        proof {
            assert(head.subrange(0, i as int).push(head[i as int]) =~= head.subrange(
                0,
                i as int + 1,
            ));
        }
        i += 1;
    }
    hasher.write(name.as_bytes());
    let width = u64_to_le_bytes(arity as u64);
    hasher.write(width.as_slice());
    let ghost mid = head + seq![encode_utf8(name@), spec_u64_to_le_bytes(arity as u64)];
    proof {
        assert(head.subrange(0, head.len() as int) =~= head);
        assert(hasher@ =~= mid);
    }
    let mut j: usize = 0;
    while j < type_ids.len()
        invariant
            j <= type_ids.len(),
            tail == Seq::new(type_ids@.len(), |i: int| spec_u64_to_le_bytes(type_ids@[i].code)),
            hasher@ == mid + tail.subrange(0, j as int),
        decreases type_ids.len() - j,
    {
        let code = u64_to_le_bytes(type_ids[j].code);
        hasher.write(code.as_slice());
        proof {
            assert((mid + tail.subrange(0, j as int)).push(tail[j as int]) =~= mid + tail.subrange(
                0,
                j as int + 1,
            ));
        }
        j += 1;
    }
    proof {
        assert(tail.subrange(0, tail.len() as int) =~= tail);
    }
    hasher.finish()
}

/// Computes the fingerprint of a definition: of `qualifiers`, `name` and
/// `arity`, whatever the types of the arguments.
pub fn calc_def_hash(qualifiers: &[&str], name: &str, arity: usize) -> (h: u64)
    ensures
        h == def_hash(names_of(qualifiers@), name@, arity),
{
    let no_types: Vec<TypeId> = Vec::new();
    proof {
        assert(no_types@ =~= Seq::<TypeId>::empty());
    }
    calc_fn_hash(qualifiers, name, arity, no_types.as_slice())
}

/// Computes the fingerprint of an argument list: of the types of the
/// arguments at a call site, in their order.
pub fn calc_args_hash(type_ids: &[TypeId]) -> (h: u64)
    ensures
        h == args_hash(type_ids@),
{
    let no_names: Vec<&str> = Vec::new();
    proof {
        reveal_strlit("");
        assert(""@ =~= Seq::<char>::empty());
        assert(names_of(no_names@) =~= Seq::<Seq<char>>::empty());
    }
    calc_fn_hash(no_names.as_slice(), "", 0, type_ids)
}

/// Computes the key under which a native function named `name` with
/// parameters of the types `type_ids` is found through `qualifiers`.
pub fn calc_native_key(qualifiers: &[&str], name: &str, type_ids: &[TypeId]) -> (key: u64)
    ensures
        key == native_key(names_of(qualifiers@), name@, type_ids@),
{
    calc_def_hash(qualifiers, name, type_ids.len()) ^ calc_args_hash(type_ids)
}

} // verus!
