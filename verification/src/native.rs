//! Host functions of fixed arity as native functions: each wrapper takes
//! the arguments out of the argument array by position, hands them to the
//! host function with their native types, and wraps what it returns.

use vstd::prelude::*;
use std::marker::PhantomData;
use std::rc::Rc;
use crate::callable::{CallableFunction, NativeCall, NativeFn};
use crate::dynamic::{Dynamic, Variant};
use crate::error::FuncReturn;
use crate::hash::def_hash;
use crate::model::{FuncInfoView, ModuleView};
use crate::module::Module;
use crate::table::lemma_get_put_same;
use crate::types::{FnAccess, TypeId};

verus! {

/// The result of a host function as a native function returns it.
pub open spec fn lifted<T: Variant>(t: FuncReturn<T>) -> FuncReturn<Dynamic> {
    match t {
        Ok(v) => Ok(v.wrap()),
        Err(e) => Err(e),
    }
}

/// Wraps the value of a result.
pub fn lift<T: Variant>(t: FuncReturn<T>) -> (r: FuncReturn<Dynamic>)
    ensures
        r == lifted(t),
{
    match t {
        Ok(v) => Ok(v.into_dynamic()),
        Err(e) => Err(e),
    }
}

/// Takes the argument at place `i` out of the array, as an `A`; the unit
/// value is left in its place.
pub fn take_arg<A: Variant>(args: &mut Vec<Dynamic>, i: usize) -> (a: A)
    requires
        i < old(args)@.len(),
        old(args)@[i as int].type_token() == A::token(),
    ensures
        a.wrap() == old(args)@[i as int],
        final(args)@ == old(args)@.update(i as int, Dynamic::Unit),
{
    let d = args[i].take();
    proof {
        assert(args@ =~= old(args)@.update(i as int, Dynamic::Unit));
    }
    A::unwrap_dynamic(d).unwrap()
}

/// A host function without parameters.
#[verifier::reject_recursive_types(T)]
#[verifier::reject_recursive_types(F)]
pub struct Pure0<T: Variant, F: Fn() -> FuncReturn<T>> {
    func: F,
    marker: PhantomData<T>,
}

/// On which arrays a function without parameters is called: the empty one.
pub open spec fn accepts_0(args: Seq<Dynamic>) -> bool {
    args.len() == 0
}

/// What a call of the host function `func` without arguments does.
pub open spec fn effect_0<T: Variant, F: Fn() -> FuncReturn<T>>(
    func: F,
    before: Seq<Dynamic>,
    after: Seq<Dynamic>,
    result: FuncReturn<Dynamic>,
) -> bool {
    exists|t: FuncReturn<T>| #[trigger]
        call_ensures(func, (), t) && after == before && result == lifted(t)
}

impl<T: Variant, F: Fn() -> FuncReturn<T>> Pure0<T, F> {
    /// The host function.
    pub closed spec fn host(&self) -> F {
        self.func
    }

    #[verifier::type_invariant]
    spec fn total(self) -> bool {
        call_requires(self.func, ())
    }

    /// Wraps a host function that can always be called.
    pub fn new(func: F) -> (w: Self)
        requires
            call_requires(func, ()),
        ensures
            w.host() == func,
    {
        Pure0 { func, marker: PhantomData }
    }
}

impl<T: Variant, F: Fn() -> FuncReturn<T>> NativeCall for Pure0<T, F> {
    open spec fn accepts(&self, args: Seq<Dynamic>) -> bool {
        accepts_0(args)
    }

    open spec fn effect(
        &self,
        before: Seq<Dynamic>,
        after: Seq<Dynamic>,
        result: FuncReturn<Dynamic>,
    ) -> bool {
        effect_0(self.host(), before, after, result)
    }

    fn call(&self, args: &mut Vec<Dynamic>) -> (result: FuncReturn<Dynamic>) {
        proof {
            use_type_invariant(self);
        }
        let t = (self.func)();
        lift(t)
    }
}

/// A host function of one parameter, taken by value.
#[verifier::reject_recursive_types(A)]
#[verifier::reject_recursive_types(T)]
#[verifier::reject_recursive_types(F)]
pub struct Pure1<A: Variant, T: Variant, F: Fn(A) -> FuncReturn<T>> {
    func: F,
    marker: PhantomData<(A, T)>,
}

/// On which arrays a function of one parameter of type `A` is called.
pub open spec fn accepts_1<A: Variant>(args: Seq<Dynamic>) -> bool {
    args.len() == 1 && args[0].type_token() == A::token()
}

/// What a call of the host function `func` does: the argument is taken out
/// of the array and handed over.
pub open spec fn effect_1<A: Variant, T: Variant, F: Fn(A) -> FuncReturn<T>>(
    func: F,
    before: Seq<Dynamic>,
    after: Seq<Dynamic>,
    result: FuncReturn<Dynamic>,
) -> bool {
    exists|a: A, t: FuncReturn<T>| #[trigger]
        call_ensures(func, (a,), t) && a.wrap() == before[0] && after == before.update(
            0,
            Dynamic::Unit,
        ) && result == lifted(t)
}

impl<A: Variant, T: Variant, F: Fn(A) -> FuncReturn<T>> Pure1<A, T, F> {
    /// The host function.
    pub closed spec fn host(&self) -> F {
        self.func
    }

    #[verifier::type_invariant]
    spec fn total(self) -> bool {
        forall|a: A| call_requires(self.func, (a,))
    }

    /// Wraps a host function that can be called on every argument.
    pub fn new(func: F) -> (w: Self)
        requires
            forall|a: A| call_requires(func, (a,)),
        ensures
            w.host() == func,
    {
        Pure1 { func, marker: PhantomData }
    }
}

impl<A: Variant, T: Variant, F: Fn(A) -> FuncReturn<T>> NativeCall for Pure1<A, T, F> {
    open spec fn accepts(&self, args: Seq<Dynamic>) -> bool {
        accepts_1::<A>(args)
    }

    open spec fn effect(
        &self,
        before: Seq<Dynamic>,
        after: Seq<Dynamic>,
        result: FuncReturn<Dynamic>,
    ) -> bool {
        effect_1::<A, T, F>(self.host(), before, after, result)
    }

    fn call(&self, args: &mut Vec<Dynamic>) -> (result: FuncReturn<Dynamic>) {
        proof {
            use_type_invariant(self);
        }
        let a: A = take_arg(args, 0);
        let t = (self.func)(a);
        lift(t)
    }
}

/// A host function of one parameter, taken by reference: what the function
/// makes of its argument is left in the array.
#[verifier::reject_recursive_types(A)]
#[verifier::reject_recursive_types(T)]
#[verifier::reject_recursive_types(F)]
pub struct Method1<A: Variant, T: Variant, F: Fn(&mut A) -> FuncReturn<T>> {
    func: F,
    marker: PhantomData<(A, T)>,
}

/// What a call of the host function `func` does, as far as a predicate on
/// the two arrays can say it: it is handed the first argument in place, and
/// a value of the same type is there when it returns. That this value is
/// what the host function made of the argument is stated by
/// `Method1::call`.
pub open spec fn effect_1_mut<A: Variant, T: Variant, F: Fn(&mut A) -> FuncReturn<T>>(
    func: F,
    before: Seq<Dynamic>,
    after: Seq<Dynamic>,
    result: FuncReturn<Dynamic>,
) -> bool {
    exists|a: &mut A, t: FuncReturn<T>| #[trigger]
        call_ensures(func, (a,), t) && (*a).wrap() == before[0] && after.len() == 1
            && after[0].type_token() == A::token() && result == lifted(t)
}

impl<A: Variant, T: Variant, F: Fn(&mut A) -> FuncReturn<T>> Method1<A, T, F> {
    /// The host function.
    pub closed spec fn host(&self) -> F {
        self.func
    }

    #[verifier::type_invariant]
    spec fn total(self) -> bool {
        forall|a: &mut A| call_requires(self.func, (a,))
    }

    /// Wraps a host function that can be called on every argument.
    pub fn new(func: F) -> (w: Self)
        requires
            forall|a: &mut A| call_requires(func, (a,)),
        ensures
            w.host() == func,
    {
        Method1 { func, marker: PhantomData }
    }
}

impl<A: Variant, T: Variant, F: Fn(&mut A) -> FuncReturn<T>> NativeCall for Method1<A, T, F> {
    open spec fn accepts(&self, args: Seq<Dynamic>) -> bool {
        accepts_1::<A>(args)
    }

    open spec fn effect(
        &self,
        before: Seq<Dynamic>,
        after: Seq<Dynamic>,
        result: FuncReturn<Dynamic>,
    ) -> bool {
        effect_1_mut::<A, T, F>(self.host(), before, after, result)
    }

    /// The host function is handed the first argument in place; what it
    /// makes of it is in the first slot when the call returns.
    fn call(&self, args: &mut Vec<Dynamic>) -> (result: FuncReturn<Dynamic>)
        ensures
            exists|r: &mut A, t: FuncReturn<T>| #[trigger]
                call_ensures(self.host(), (r,), t) && (*r).wrap() == old(args)@[0]
                    && final(args)@ == seq![(*final(r)).wrap()] && result == lifted(t),
    {
        proof {
            use_type_invariant(self);
        }
        let mut a: A = take_arg(args, 0);
        let ghost start = a;
        let t = (self.func)(&mut a);
        proof {
            assert(exists|r: &mut A| #[trigger]
                call_ensures(self.func, (r,), t) && *r == start && *final(r) == a);
        }
        args[0] = a.into_dynamic();
        proof {
            assert(args@ =~= seq![a.wrap()]);
        }
        lift(t)
    }
}

/// A host function of two parameters, taken by value.
#[verifier::reject_recursive_types(A)]
#[verifier::reject_recursive_types(B)]
#[verifier::reject_recursive_types(T)]
#[verifier::reject_recursive_types(F)]
pub struct Pure2<A: Variant, B: Variant, T: Variant, F: Fn(A, B) -> FuncReturn<T>> {
    func: F,
    marker: PhantomData<(A, B, T)>,
}

/// On which arrays a function of two parameters of these types is called.
pub open spec fn accepts_2<A: Variant, B: Variant>(args: Seq<Dynamic>) -> bool {
    args.len() == 2 && args[0].type_token() == A::token() && args[1].type_token() == B::token()
}

/// What a call of the host function `func` does: the arguments are taken
/// out of the array and handed over in their order.
pub open spec fn effect_2<A: Variant, B: Variant, T: Variant, F: Fn(A, B) -> FuncReturn<T>>(
    func: F,
    before: Seq<Dynamic>,
    after: Seq<Dynamic>,
    result: FuncReturn<Dynamic>,
) -> bool {
    exists|a: A, b: B, t: FuncReturn<T>| #[trigger]
        call_ensures(func, (a, b), t)
            && a.wrap() == before[0]
            && b.wrap() == before[1]
            && after == before.update(0, Dynamic::Unit).update(1, Dynamic::Unit)
            && result == lifted(t)
}

impl<A: Variant, B: Variant, T: Variant, F: Fn(A, B) -> FuncReturn<T>> Pure2<A, B, T, F> {
    /// The host function.
    pub closed spec fn host(&self) -> F {
        self.func
    }

    #[verifier::type_invariant]
    spec fn total(self) -> bool {
        forall|a: A, b: B| call_requires(self.func, (a, b))
    }

    /// Wraps a host function that can be called on all arguments.
    pub fn new(func: F) -> (w: Self)
        requires
            forall|a: A, b: B| call_requires(func, (a, b)),
        ensures
            w.host() == func,
    {
        Pure2 { func, marker: PhantomData }
    }
}

impl<
    A: Variant,
    B: Variant,
    T: Variant,
    F: Fn(A, B) -> FuncReturn<T>,
> NativeCall for Pure2<A, B, T, F> {
    open spec fn accepts(&self, args: Seq<Dynamic>) -> bool {
        accepts_2::<A, B>(args)
    }

    open spec fn effect(
        &self,
        before: Seq<Dynamic>,
        after: Seq<Dynamic>,
        result: FuncReturn<Dynamic>,
    ) -> bool {
        effect_2::<A, B, T, F>(self.host(), before, after, result)
    }

    fn call(&self, args: &mut Vec<Dynamic>) -> (result: FuncReturn<Dynamic>) {
        proof {
            use_type_invariant(self);
        }
        let a: A = take_arg(args, 0);
        let b: B = take_arg(args, 1);
        let t = (self.func)(a, b);
        lift(t)
    }
}

/// A host function of two parameters, the first taken by reference: what
/// the function makes of its first argument is left in the array.
#[verifier::reject_recursive_types(A)]
#[verifier::reject_recursive_types(B)]
#[verifier::reject_recursive_types(T)]
#[verifier::reject_recursive_types(F)]
pub struct Method2<A: Variant, B: Variant, T: Variant, F: Fn(&mut A, B) -> FuncReturn<T>> {
    func: F,
    marker: PhantomData<(A, B, T)>,
}

/// What a call of the host function `func` does, as far as a predicate on
/// the two arrays can say it: it is handed the first argument in place and
/// the others by value, taken out of the array; a value of the type of the
/// first is there when it returns. That this value is what the host
/// function made of the argument is stated by `Method2::call`.
pub open spec fn effect_2_mut<
    A: Variant,
    B: Variant,
    T: Variant,
    F: Fn(&mut A, B) -> FuncReturn<T>,
>(
    func: F,
    before: Seq<Dynamic>,
    after: Seq<Dynamic>,
    result: FuncReturn<Dynamic>,
) -> bool {
    exists|a: &mut A, b: B, t: FuncReturn<T>| #[trigger]
        call_ensures(func, (a, b), t)
            && (*a).wrap() == before[0]
            && b.wrap() == before[1]
            && after.len() == 2
            && after[0].type_token() == A::token()
            && after[1] == Dynamic::Unit
            && result == lifted(t)
}

impl<A: Variant, B: Variant, T: Variant, F: Fn(&mut A, B) -> FuncReturn<T>> Method2<A, B, T, F> {
    /// The host function.
    pub closed spec fn host(&self) -> F {
        self.func
    }

    #[verifier::type_invariant]
    spec fn total(self) -> bool {
        forall|a: &mut A, b: B| call_requires(self.func, (a, b))
    }

    /// Wraps a host function that can be called on all arguments.
    pub fn new(func: F) -> (w: Self)
        requires
            forall|a: &mut A, b: B| call_requires(func, (a, b)),
        ensures
            w.host() == func,
    {
        Method2 { func, marker: PhantomData }
    }
}

impl<
    A: Variant,
    B: Variant,
    T: Variant,
    F: Fn(&mut A, B) -> FuncReturn<T>,
> NativeCall for Method2<A, B, T, F> {
    open spec fn accepts(&self, args: Seq<Dynamic>) -> bool {
        accepts_2::<A, B>(args)
    }

    open spec fn effect(
        &self,
        before: Seq<Dynamic>,
        after: Seq<Dynamic>,
        result: FuncReturn<Dynamic>,
    ) -> bool {
        effect_2_mut::<A, B, T, F>(self.host(), before, after, result)
    }

    /// The host function is handed the first argument in place and the
    /// second by value; what it makes of the first is in the first slot when
    /// the call returns, and the second slot is empty.
    fn call(&self, args: &mut Vec<Dynamic>) -> (result: FuncReturn<Dynamic>)
        ensures
            exists|r: &mut A, b: B, t: FuncReturn<T>| #[trigger]
                call_ensures(self.host(), (r, b), t) && (*r).wrap() == old(args)@[0] && b.wrap()
                    == old(args)@[1] && final(args)@ == seq![(*final(r)).wrap(), Dynamic::Unit]
                    && result == lifted(t),
    {
        proof {
            use_type_invariant(self);
        }
        let b: B = take_arg(args, 1);
        let mut a: A = take_arg(args, 0);
        let ghost start = a;
        let ghost given_b = b;
        let t = (self.func)(&mut a, b);
        proof {
            assert(exists|r: &mut A| #[trigger]
                call_ensures(self.func, (r, given_b), t) && *r == start && *final(r) == a);
        }
        args[0] = a.into_dynamic();
        proof {
            assert(args@ =~= seq![a.wrap(), Dynamic::Unit]);
        }
        lift(t)
    }
}

/// A host function of three parameters, taken by value.
#[verifier::reject_recursive_types(A)]
#[verifier::reject_recursive_types(B)]
#[verifier::reject_recursive_types(C)]
#[verifier::reject_recursive_types(T)]
#[verifier::reject_recursive_types(F)]
pub struct Pure3<A: Variant, B: Variant, C: Variant, T: Variant, F: Fn(A, B, C) -> FuncReturn<T>> {
    func: F,
    marker: PhantomData<(A, B, C, T)>,
}

/// On which arrays a function of three parameters of these types is called.
pub open spec fn accepts_3<A: Variant, B: Variant, C: Variant>(args: Seq<Dynamic>) -> bool {
    args.len() == 3 && args[0].type_token() == A::token() && args[1].type_token() == B::token()
        && args[2].type_token() == C::token()
}

/// What a call of the host function `func` does: the arguments are taken
/// out of the array and handed over in their order.
pub open spec fn effect_3<
    A: Variant,
    B: Variant,
    C: Variant,
    T: Variant,
    F: Fn(A, B, C) -> FuncReturn<T>,
>(
    func: F,
    before: Seq<Dynamic>,
    after: Seq<Dynamic>,
    result: FuncReturn<Dynamic>,
) -> bool {
    exists|a: A, b: B, c: C, t: FuncReturn<T>| #[trigger]
        call_ensures(func, (a, b, c), t)
            && a.wrap() == before[0]
            && b.wrap() == before[1]
            && c.wrap() == before[2]
            && after == before.update(0, Dynamic::Unit).update(1, Dynamic::Unit).update(2, Dynamic::Unit)
            && result == lifted(t)
}

impl<
    A: Variant,
    B: Variant,
    C: Variant,
    T: Variant,
    F: Fn(A, B, C) -> FuncReturn<T>,
> Pure3<A, B, C, T, F> {
    /// The host function.
    pub closed spec fn host(&self) -> F {
        self.func
    }

    #[verifier::type_invariant]
    spec fn total(self) -> bool {
        forall|a: A, b: B, c: C| call_requires(self.func, (a, b, c))
    }

    /// Wraps a host function that can be called on all arguments.
    pub fn new(func: F) -> (w: Self)
        requires
            forall|a: A, b: B, c: C| call_requires(func, (a, b, c)),
        ensures
            w.host() == func,
    {
        Pure3 { func, marker: PhantomData }
    }
}

impl<
    A: Variant,
    B: Variant,
    C: Variant,
    T: Variant,
    F: Fn(A, B, C) -> FuncReturn<T>,
> NativeCall for Pure3<A, B, C, T, F> {
    open spec fn accepts(&self, args: Seq<Dynamic>) -> bool {
        accepts_3::<A, B, C>(args)
    }

    open spec fn effect(
        &self,
        before: Seq<Dynamic>,
        after: Seq<Dynamic>,
        result: FuncReturn<Dynamic>,
    ) -> bool {
        effect_3::<A, B, C, T, F>(self.host(), before, after, result)
    }

    fn call(&self, args: &mut Vec<Dynamic>) -> (result: FuncReturn<Dynamic>) {
        proof {
            use_type_invariant(self);
        }
        let a: A = take_arg(args, 0);
        let b: B = take_arg(args, 1);
        let c: C = take_arg(args, 2);
        let t = (self.func)(a, b, c);
        lift(t)
    }
}

/// A host function of three parameters, the first taken by reference: what
/// the function makes of its first argument is left in the array.
#[verifier::reject_recursive_types(A)]
#[verifier::reject_recursive_types(B)]
#[verifier::reject_recursive_types(C)]
#[verifier::reject_recursive_types(T)]
#[verifier::reject_recursive_types(F)]
pub struct Method3<
    A: Variant,
    B: Variant,
    C: Variant,
    T: Variant,
    F: Fn(&mut A, B, C) -> FuncReturn<T>,
> {
    func: F,
    marker: PhantomData<(A, B, C, T)>,
}

/// What a call of the host function `func` does, as far as a predicate on
/// the two arrays can say it: it is handed the first argument in place and
/// the others by value, taken out of the array; a value of the type of the
/// first is there when it returns. That this value is what the host
/// function made of the argument is stated by `Method3::call`.
pub open spec fn effect_3_mut<
    A: Variant,
    B: Variant,
    C: Variant,
    T: Variant,
    F: Fn(&mut A, B, C) -> FuncReturn<T>,
>(
    func: F,
    before: Seq<Dynamic>,
    after: Seq<Dynamic>,
    result: FuncReturn<Dynamic>,
) -> bool {
    exists|a: &mut A, b: B, c: C, t: FuncReturn<T>| #[trigger]
        call_ensures(func, (a, b, c), t)
            && (*a).wrap() == before[0]
            && b.wrap() == before[1]
            && c.wrap() == before[2]
            && after.len() == 3
            && after[0].type_token() == A::token()
            && after[1] == Dynamic::Unit
            && after[2] == Dynamic::Unit
            && result == lifted(t)
}

impl<
    A: Variant,
    B: Variant,
    C: Variant,
    T: Variant,
    F: Fn(&mut A, B, C) -> FuncReturn<T>,
> Method3<A, B, C, T, F> {
    /// The host function.
    pub closed spec fn host(&self) -> F {
        self.func
    }

    #[verifier::type_invariant]
    spec fn total(self) -> bool {
        forall|a: &mut A, b: B, c: C| call_requires(self.func, (a, b, c))
    }

    /// Wraps a host function that can be called on all arguments.
    pub fn new(func: F) -> (w: Self)
        requires
            forall|a: &mut A, b: B, c: C| call_requires(func, (a, b, c)),
        ensures
            w.host() == func,
    {
        Method3 { func, marker: PhantomData }
    }
}

impl<
    A: Variant,
    B: Variant,
    C: Variant,
    T: Variant,
    F: Fn(&mut A, B, C) -> FuncReturn<T>,
> NativeCall for Method3<A, B, C, T, F> {
    open spec fn accepts(&self, args: Seq<Dynamic>) -> bool {
        accepts_3::<A, B, C>(args)
    }

    open spec fn effect(
        &self,
        before: Seq<Dynamic>,
        after: Seq<Dynamic>,
        result: FuncReturn<Dynamic>,
    ) -> bool {
        effect_3_mut::<A, B, C, T, F>(self.host(), before, after, result)
    }

    /// The host function is handed the first argument in place and the
    /// others by value; what it makes of the first is in the first slot when
    /// the call returns, and the other slots are empty.
    fn call(&self, args: &mut Vec<Dynamic>) -> (result: FuncReturn<Dynamic>)
        ensures
            exists|r: &mut A, b: B, c: C, t: FuncReturn<T>| #[trigger]
                call_ensures(self.host(), (r, b, c), t) && (*r).wrap() == old(args)@[0] && b.wrap()
                    == old(args)@[1] && c.wrap() == old(args)@[2] && final(args)@ == seq![
                    (*final(r)).wrap(),
                    Dynamic::Unit,
                    Dynamic::Unit,
                ] && result == lifted(t),
    {
        proof {
            use_type_invariant(self);
        }
        let c: C = take_arg(args, 2);
        let b: B = take_arg(args, 1);
        let mut a: A = take_arg(args, 0);
        let ghost start = a;
        let ghost given_b = b;
        let ghost given_c = c;
        let t = (self.func)(&mut a, b, c);
        proof {
            assert(exists|r: &mut A| #[trigger]
                call_ensures(self.func, (r, given_b, given_c), t) && *r == start && *final(r)
                    == a);
        }
        args[0] = a.into_dynamic();
        proof {
            assert(args@ =~= seq![a.wrap(), Dynamic::Unit, Dynamic::Unit]);
        }
        lift(t)
    }
}

/// The native function `f` is called on the arrays that `accepts` admits,
/// and a call does what `effect` says.
pub open spec fn behaves(
    f: NativeFn,
    accepts: spec_fn(Seq<Dynamic>) -> bool,
    effect: spec_fn(Seq<Dynamic>, Seq<Dynamic>, FuncReturn<Dynamic>) -> bool,
) -> bool {
    &&& forall|args: Seq<Dynamic>| #[trigger] f.accepts(args) == accepts(args)
    &&& forall|before: Seq<Dynamic>, after: Seq<Dynamic>, result: FuncReturn<Dynamic>| #[trigger]
        f.effect(before, after, result) == effect(before, after, result)
}

/// `after` is `before` with a public native function named `name`, with
/// parameters of the types `params`, kept under the fingerprint `key`.
pub open spec fn registered(
    before: ModuleView,
    after: ModuleView,
    key: u64,
    name: Seq<char>,
    params: Seq<TypeId>,
) -> bool {
    &&& key == def_hash(Seq::empty(), name, params.len() as usize)
    &&& after.native(key) matches Some(info)
    &&& after == before.with_native(key, info)
    &&& info.name == name
    &&& info.access == FnAccess::Public
    &&& info.params == params
    &&& before.wf() ==> after.wf()
}

/// A handle does what the function behind it does.
proof fn lemma_handle_behaves(
    handle: NativeFn,
    accepts: spec_fn(Seq<Dynamic>) -> bool,
    effect: spec_fn(Seq<Dynamic>, Seq<Dynamic>, FuncReturn<Dynamic>) -> bool,
)
    requires
        forall|args: Seq<Dynamic>| #[trigger] (*handle).accepts(args) == accepts(args),
        forall|before: Seq<Dynamic>, after: Seq<Dynamic>, result: FuncReturn<Dynamic>| #[trigger]
            (*handle).effect(before, after, result) == effect(before, after, result),
    ensures
        behaves(handle, accepts, effect),
{
    assert(forall|args: Seq<Dynamic>| #[trigger] handle.accepts(args) == (*handle).accepts(args));
    assert(forall|before: Seq<Dynamic>, after: Seq<Dynamic>, result: FuncReturn<Dynamic>|
        #[trigger] handle.effect(before, after, result) == (*handle).effect(before, after, result));
}

impl Module {
    /// Keeps the native function behind `handle` as a public function named
    /// `name` with parameters of the types `params`: as one that may change
    /// its first argument where `by_reference` holds, else as one that takes
    /// its arguments by value.
    fn register(
        &mut self,
        name: &str,
        params: Vec<TypeId>,
        handle: NativeFn,
        by_reference: bool,
    ) -> (hash_fn: u64)
        ensures
            registered(old(self)@, final(self)@, hash_fn, name@, params@),
            final(self)@.native(hash_fn).unwrap().func == (if by_reference {
                CallableFunction::Method(handle)
            } else {
                CallableFunction::Pure(handle)
            }),
    {
        let callable = if by_reference {
            CallableFunction::Method(handle)
        } else {
            CallableFunction::Pure(handle)
        };
        proof {
            lemma_get_put_same(
                self@.functions,
                def_hash(Seq::empty(), name@, params@.len() as usize),
                FuncInfoView { name: name@, access: FnAccess::Public, params: params@, func: callable },
            );
        }
        self.set_fn(name, FnAccess::Public, params.as_slice(), callable)
    }

    /// Keeps the host function `func`, which takes no parameter, as a public
    /// native function named `name`, and returns the fingerprint under which
    /// it is kept. The function is called on the empty array.
    pub fn set_fn_0<T: Variant + 'static, F: Fn() -> FuncReturn<T> + 'static>(
        &mut self,
        name: &str,
        func: F,
    ) -> (hash_fn: u64)
        requires
            call_requires(func, ()),
        ensures
            registered(old(self)@, final(self)@, hash_fn, name@, Seq::<TypeId>::empty()),
            final(self)@.native(hash_fn).unwrap().func matches CallableFunction::Pure(f)
                && behaves(
                f,
                |args: Seq<Dynamic>| accepts_0(args),
                |before: Seq<Dynamic>, after: Seq<Dynamic>, result: FuncReturn<Dynamic>|
                    effect_0::<T, F>(func, before, after, result),
            ),
    {
        let boxed: Box<dyn NativeCall> = Box::new(Pure0::<T, F>::new(func));
        let handle = Rc::new(boxed);
        proof {
            assert(*handle == boxed);
            lemma_handle_behaves(
                handle,
                |args: Seq<Dynamic>| accepts_0(args),
                |before: Seq<Dynamic>, after: Seq<Dynamic>, result: FuncReturn<Dynamic>|
                    effect_0::<T, F>(func, before, after, result),
            );
        }
        let mut params: Vec<TypeId> = Vec::new();
        proof {
            assert(params@ =~= Seq::<TypeId>::empty());
        }
        self.register(name, params, handle, false)
    }

    /// Keeps the host function `func`, which takes one parameter by value,
    /// as a public native function named `name`, and returns the
    /// fingerprint under which it is kept. The function is called on arrays
    /// of exactly that many arguments of the parameters' types, in their
    /// order.
    pub fn set_fn_1<
        A: Variant + 'static,
        T: Variant + 'static,
        F: Fn(A) -> FuncReturn<T> + 'static,
    >(
        &mut self,
        name: &str,
        func: F,
    ) -> (hash_fn: u64)
        requires
            forall|a: A| call_requires(func, (a,)),
        ensures
            registered(old(self)@, final(self)@, hash_fn, name@, seq![A::token()]),
            final(self)@.native(hash_fn).unwrap().func matches CallableFunction::Pure(f)
                && behaves(
                f,
                |args: Seq<Dynamic>| accepts_1::<A>(args),
                |before: Seq<Dynamic>, after: Seq<Dynamic>, result: FuncReturn<Dynamic>|
                    effect_1::<A, T, F>(func, before, after, result),
            ),
    {
        let boxed: Box<dyn NativeCall> = Box::new(Pure1::<A, T, F>::new(func));
        let handle = Rc::new(boxed);
        proof {
            assert(*handle == boxed);
            lemma_handle_behaves(
                handle,
                |args: Seq<Dynamic>| accepts_1::<A>(args),
                |before: Seq<Dynamic>, after: Seq<Dynamic>, result: FuncReturn<Dynamic>|
                    effect_1::<A, T, F>(func, before, after, result),
            );
        }
        let mut params: Vec<TypeId> = Vec::new();
        params.push(A::type_id());
        proof {
            assert(params@ =~= seq![A::token()]);
        }
        self.register(name, params, handle, false)
    }

    /// Keeps the host function `func`, which takes one parameter, by reference,
    /// as a public native function named `name`, and returns the
    /// fingerprint under which it is kept. The function is called on arrays
    /// of exactly that many arguments of the parameters' types, in their
    /// order; what it makes of the first is left in the array.
    pub fn set_fn_1_mut<
        A: Variant + 'static,
        T: Variant + 'static,
        F: Fn(&mut A) -> FuncReturn<T> + 'static,
    >(
        &mut self,
        name: &str,
        func: F,
    ) -> (hash_fn: u64)
        requires
            forall|a: &mut A| call_requires(func, (a,)),
        ensures
            registered(old(self)@, final(self)@, hash_fn, name@, seq![A::token()]),
            final(self)@.native(hash_fn).unwrap().func matches CallableFunction::Method(f)
                && behaves(
                f,
                |args: Seq<Dynamic>| accepts_1::<A>(args),
                |before: Seq<Dynamic>, after: Seq<Dynamic>, result: FuncReturn<Dynamic>|
                    effect_1_mut::<A, T, F>(func, before, after, result),
            ),
    {
        let boxed: Box<dyn NativeCall> = Box::new(Method1::<A, T, F>::new(func));
        let handle = Rc::new(boxed);
        proof {
            assert(*handle == boxed);
            lemma_handle_behaves(
                handle,
                |args: Seq<Dynamic>| accepts_1::<A>(args),
                |before: Seq<Dynamic>, after: Seq<Dynamic>, result: FuncReturn<Dynamic>|
                    effect_1_mut::<A, T, F>(func, before, after, result),
            );
        }
        let mut params: Vec<TypeId> = Vec::new();
        params.push(A::type_id());
        proof {
            assert(params@ =~= seq![A::token()]);
        }
        self.register(name, params, handle, true)
    }

    /// Keeps the host function `func`, which takes two parameters by value,
    /// as a public native function named `name`, and returns the
    /// fingerprint under which it is kept. The function is called on arrays
    /// of exactly that many arguments of the parameters' types, in their
    /// order.
    pub fn set_fn_2<
        A: Variant + 'static,
        B: Variant + 'static,
        T: Variant + 'static,
        F: Fn(A, B) -> FuncReturn<T> + 'static,
    >(
        &mut self,
        name: &str,
        func: F,
    ) -> (hash_fn: u64)
        requires
            forall|a: A, b: B| call_requires(func, (a, b)),
        ensures
            registered(old(self)@, final(self)@, hash_fn, name@, seq![A::token(), B::token()]),
            final(self)@.native(hash_fn).unwrap().func matches CallableFunction::Pure(f)
                && behaves(
                f,
                |args: Seq<Dynamic>| accepts_2::<A, B>(args),
                |before: Seq<Dynamic>, after: Seq<Dynamic>, result: FuncReturn<Dynamic>|
                    effect_2::<A, B, T, F>(func, before, after, result),
            ),
    {
        let boxed: Box<dyn NativeCall> = Box::new(Pure2::<A, B, T, F>::new(func));
        let handle = Rc::new(boxed);
        proof {
            assert(*handle == boxed);
            lemma_handle_behaves(
                handle,
                |args: Seq<Dynamic>| accepts_2::<A, B>(args),
                |before: Seq<Dynamic>, after: Seq<Dynamic>, result: FuncReturn<Dynamic>|
                    effect_2::<A, B, T, F>(func, before, after, result),
            );
        }
        let mut params: Vec<TypeId> = Vec::new();
        params.push(A::type_id());
        params.push(B::type_id());
        proof {
            assert(params@ =~= seq![A::token(), B::token()]);
        }
        self.register(name, params, handle, false)
    }

    /// Keeps the host function `func`, which takes two parameters, the first by reference,
    /// as a public native function named `name`, and returns the
    /// fingerprint under which it is kept. The function is called on arrays
    /// of exactly that many arguments of the parameters' types, in their
    /// order; what it makes of the first is left in the array.
    pub fn set_fn_2_mut<
        A: Variant + 'static,
        B: Variant + 'static,
        T: Variant + 'static,
        F: Fn(&mut A, B) -> FuncReturn<T> + 'static,
    >(
        &mut self,
        name: &str,
        func: F,
    ) -> (hash_fn: u64)
        requires
            forall|a: &mut A, b: B| call_requires(func, (a, b)),
        ensures
            registered(old(self)@, final(self)@, hash_fn, name@, seq![A::token(), B::token()]),
            final(self)@.native(hash_fn).unwrap().func matches CallableFunction::Method(f)
                && behaves(
                f,
                |args: Seq<Dynamic>| accepts_2::<A, B>(args),
                |before: Seq<Dynamic>, after: Seq<Dynamic>, result: FuncReturn<Dynamic>|
                    effect_2_mut::<A, B, T, F>(func, before, after, result),
            ),
    {
        let boxed: Box<dyn NativeCall> = Box::new(Method2::<A, B, T, F>::new(func));
        let handle = Rc::new(boxed);
        proof {
            assert(*handle == boxed);
            lemma_handle_behaves(
                handle,
                |args: Seq<Dynamic>| accepts_2::<A, B>(args),
                |before: Seq<Dynamic>, after: Seq<Dynamic>, result: FuncReturn<Dynamic>|
                    effect_2_mut::<A, B, T, F>(func, before, after, result),
            );
        }
        let mut params: Vec<TypeId> = Vec::new();
        params.push(A::type_id());
        params.push(B::type_id());
        proof {
            assert(params@ =~= seq![A::token(), B::token()]);
        }
        self.register(name, params, handle, true)
    }

    /// Keeps the host function `func`, which takes three parameters by value,
    /// as a public native function named `name`, and returns the
    /// fingerprint under which it is kept. The function is called on arrays
    /// of exactly that many arguments of the parameters' types, in their
    /// order.
    pub fn set_fn_3<
        A: Variant + 'static,
        B: Variant + 'static,
        C: Variant + 'static,
        T: Variant + 'static,
        F: Fn(A, B, C) -> FuncReturn<T> + 'static,
    >(
        &mut self,
        name: &str,
        func: F,
    ) -> (hash_fn: u64)
        requires
            forall|a: A, b: B, c: C| call_requires(func, (a, b, c)),
        ensures
            registered(old(self)@, final(self)@, hash_fn, name@, seq![A::token(), B::token(), C::token()]),
            final(self)@.native(hash_fn).unwrap().func matches CallableFunction::Pure(f)
                && behaves(
                f,
                |args: Seq<Dynamic>| accepts_3::<A, B, C>(args),
                |before: Seq<Dynamic>, after: Seq<Dynamic>, result: FuncReturn<Dynamic>|
                    effect_3::<A, B, C, T, F>(func, before, after, result),
            ),
    {
        let boxed: Box<dyn NativeCall> = Box::new(Pure3::<A, B, C, T, F>::new(func));
        let handle = Rc::new(boxed);
        proof {
            assert(*handle == boxed);
            lemma_handle_behaves(
                handle,
                |args: Seq<Dynamic>| accepts_3::<A, B, C>(args),
                |before: Seq<Dynamic>, after: Seq<Dynamic>, result: FuncReturn<Dynamic>|
                    effect_3::<A, B, C, T, F>(func, before, after, result),
            );
        }
        let mut params: Vec<TypeId> = Vec::new();
        params.push(A::type_id());
        params.push(B::type_id());
        params.push(C::type_id());
        proof {
            assert(params@ =~= seq![A::token(), B::token(), C::token()]);
        }
        self.register(name, params, handle, false)
    }

    /// Keeps the host function `func`, which takes three parameters, the first by reference,
    /// as a public native function named `name`, and returns the
    /// fingerprint under which it is kept. The function is called on arrays
    /// of exactly that many arguments of the parameters' types, in their
    /// order; what it makes of the first is left in the array.
    pub fn set_fn_3_mut<
        A: Variant + 'static,
        B: Variant + 'static,
        C: Variant + 'static,
        T: Variant + 'static,
        F: Fn(&mut A, B, C) -> FuncReturn<T> + 'static,
    >(
        &mut self,
        name: &str,
        func: F,
    ) -> (hash_fn: u64)
        requires
            forall|a: &mut A, b: B, c: C| call_requires(func, (a, b, c)),
        ensures
            registered(old(self)@, final(self)@, hash_fn, name@, seq![A::token(), B::token(), C::token()]),
            final(self)@.native(hash_fn).unwrap().func matches CallableFunction::Method(f)
                && behaves(
                f,
                |args: Seq<Dynamic>| accepts_3::<A, B, C>(args),
                |before: Seq<Dynamic>, after: Seq<Dynamic>, result: FuncReturn<Dynamic>|
                    effect_3_mut::<A, B, C, T, F>(func, before, after, result),
            ),
    {
        let boxed: Box<dyn NativeCall> = Box::new(Method3::<A, B, C, T, F>::new(func));
        let handle = Rc::new(boxed);
        proof {
            assert(*handle == boxed);
            lemma_handle_behaves(
                handle,
                |args: Seq<Dynamic>| accepts_3::<A, B, C>(args),
                |before: Seq<Dynamic>, after: Seq<Dynamic>, result: FuncReturn<Dynamic>|
                    effect_3_mut::<A, B, C, T, F>(func, before, after, result),
            );
        }
        let mut params: Vec<TypeId> = Vec::new();
        params.push(A::type_id());
        params.push(B::type_id());
        params.push(C::type_id());
        proof {
            assert(params@ =~= seq![A::token(), B::token(), C::token()]);
        }
        self.register(name, params, handle, true)
    }
}

} // verus!
