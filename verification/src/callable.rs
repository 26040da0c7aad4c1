//! What a module can call: native functions of the host and functions that
//! scripts define, both held as shared handles.

use vstd::prelude::*;
use vstd::string::*;
use std::rc::Rc;
use crate::dynamic::Dynamic;
use crate::error::FuncReturn;
use crate::types::FnAccess;

verus! {

/// A function of the host, called with the arguments in one array.
///
/// An implementation that says nothing else may be called on every argument
/// array, and nothing is known of what a call does.
pub trait NativeCall {
    /// The argument arrays on which the function may be called.
    open spec fn accepts(&self, args: Seq<Dynamic>) -> bool {
        true
    }

    /// What a call may do: `before` and `after` are the argument array when
    /// the call starts and when it returns, `result` is what it returns.
    open spec fn effect(
        &self,
        before: Seq<Dynamic>,
        after: Seq<Dynamic>,
        result: FuncReturn<Dynamic>,
    ) -> bool {
        true
    }

    /// Calls the function.
    fn call(&self, args: &mut Vec<Dynamic>) -> (result: FuncReturn<Dynamic>)
        requires
            self.accepts(old(args)@),
        ensures
            self.effect(old(args)@, final(args)@, result),
    ;
}

/// A source of values, asked for one value at a time.
pub trait ValueStream {
    /// The next value, or `None` when there is none left.
    fn next_value(&mut self) -> Option<Dynamic>;
}

/// A stream of values behind one type, whatever produces them.
pub struct ValueIter {
    /// The stream; `new` always puts one here.
    stream: Option<Box<dyn ValueStream>>,
}

impl ValueIter {
    /// The stream that the values come from, if the iterator holds one.
    pub closed spec fn source(&self) -> Option<Box<dyn ValueStream>> {
        self.stream
    }

    /// Wraps a stream: the values of the iterator come from `stream`.
    pub fn new(stream: Box<dyn ValueStream>) -> (it: Self)
        ensures
            it.source() == Some(stream),
    {
        let held = Some(stream);
        ValueIter { stream: held }
    }

    /// The next value of the stream, or `None` when there is none left.
    pub fn next_value(&mut self) -> Option<Dynamic> {
        match &mut self.stream {
            Some(stream) => stream.next_value(),
            None => None,
        }
    }
}

/// A function of the host that turns a value into the stream of values that
/// a loop over it visits.
pub trait IterateCall {
    /// Starts a stream over `value`.
    fn iterate(&self, value: Dynamic) -> ValueIter;
}

/// A shared handle to a native function.
pub type NativeFn = Rc<Box<dyn NativeCall>>;

/// A shared handle to a type iterator.
pub type IteratorFn = Rc<Box<dyn IterateCall>>;

/// Where the evaluator finds a piece of compiled code.
#[derive(Clone, Copy, Debug, PartialEq, Eq, Structural)]
pub struct CodeRef {
    pub id: u64,
}

/// A function defined by a script.
#[derive(Debug, PartialEq, Eq)]
pub struct FnDef {
    pub name: String,
    pub access: FnAccess,
    pub params: Vec<String>,
    pub body: CodeRef,
}

/// Something that can be called through a module.
pub enum CallableFunction {
    /// A native function that takes its arguments by value.
    Pure(NativeFn),
    /// A native function that may change its first argument in place.
    Method(NativeFn),
    /// A function defined by a script.
    Script(Rc<FnDef>),
}

/// Another handle to what `handle` points at, made with `Rc::clone`: the
/// value behind the two handles is one and the same.
#[verifier::external_body]
pub(crate) fn share<T: ?Sized>(handle: &Rc<T>) -> (other: Rc<T>)
    ensures
        other == *handle,
{
    Rc::clone(handle)
}

impl CallableFunction {
    /// Wraps a native function that takes its arguments by value.
    pub fn from_pure(func: Box<dyn NativeCall>) -> (c: Self)
        ensures
            c matches CallableFunction::Pure(h) && *h == func,
    {
        let h = Rc::new(func);
        assert(*h == func);
        CallableFunction::Pure(h)
    }

    /// Wraps a native function that may change its first argument in place.
    pub fn from_method(func: Box<dyn NativeCall>) -> (c: Self)
        ensures
            c matches CallableFunction::Method(h) && *h == func,
    {
        let h = Rc::new(func);
        assert(*h == func);
        CallableFunction::Method(h)
    }

    /// Wraps a function defined by a script.
    pub fn from_script(def: FnDef) -> (c: Self)
        ensures
            c matches CallableFunction::Script(d) && *d == def,
    {
        let d = Rc::new(def);
        assert(*d == def);
        CallableFunction::Script(d)
    }

    /// Is this a native function that takes its arguments by value?
    pub fn is_pure(&self) -> (b: bool)
        ensures
            b == (self is Pure),
    {
        match self {
            CallableFunction::Pure(_) => true,
            _ => false,
        }
    }

    /// Is this a native function that may change its first argument?
    pub fn is_method(&self) -> (b: bool)
        ensures
            b == (self is Method),
    {
        match self {
            CallableFunction::Method(_) => true,
            _ => false,
        }
    }

    /// Is this a function defined by a script?
    pub fn is_script(&self) -> (b: bool)
        ensures
            b == (self is Script),
    {
        match self {
            CallableFunction::Script(_) => true,
            _ => false,
        }
    }

    /// The native function behind the handle, if there is one.
    pub fn get_native_fn(&self) -> (f: Option<&Box<dyn NativeCall>>)
        ensures
            match *self {
                CallableFunction::Pure(h) => f == Some(&*h),
                CallableFunction::Method(h) => f == Some(&*h),
                CallableFunction::Script(_) => f is None,
            },
    {
        match self {
            CallableFunction::Pure(h) => Some(&**h),
            CallableFunction::Method(h) => Some(&**h),
            CallableFunction::Script(_) => None,
        }
    }

    /// The script function behind the handle, if there is one.
    pub fn get_fn_def(&self) -> (f: Option<&FnDef>)
        ensures
            match *self {
                CallableFunction::Script(d) => f == Some(&*d),
                _ => f is None,
            },
    {
        match self {
            CallableFunction::Script(d) => Some(&**d),
            _ => None,
        }
    }
}

impl Clone for CallableFunction {
    /// A second handle to the same function; the function is not copied.
    fn clone(&self) -> (c: Self)
        ensures
            c == *self,
    {
        match self {
            CallableFunction::Pure(h) => CallableFunction::Pure(share(h)),
            CallableFunction::Method(h) => CallableFunction::Method(share(h)),
            CallableFunction::Script(d) => CallableFunction::Script(share(d)),
        }
    }
}

} // verus!
