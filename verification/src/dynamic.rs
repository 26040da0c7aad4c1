//! The dynamically typed value that variables hold and functions exchange.

use vstd::prelude::*;
use vstd::string::*;
use crate::types::TypeId;

verus! {

/// A value whose type is known only at run time.
#[derive(Debug, PartialEq, Eq)]
pub enum Dynamic {
    Unit,
    Bool(bool),
    Int(i64),
    Char(char),
    Str(String),
}

/// The code of the type token of the unit value.
pub const CODE_UNIT: u64 = 0;

/// The code of the type token of booleans.
pub const CODE_BOOL: u64 = 1;

/// The code of the type token of integers.
pub const CODE_INT: u64 = 2;

/// The code of the type token of characters.
pub const CODE_CHAR: u64 = 3;

/// The code of the type token of strings.
pub const CODE_STR: u64 = 4;

impl Dynamic {
    /// The token of the type of the value held.
    pub open spec fn type_token(&self) -> TypeId {
        match self {
            Dynamic::Unit => (TypeId { code: CODE_UNIT }),
            Dynamic::Bool(_) => (TypeId { code: CODE_BOOL }),
            Dynamic::Int(_) => (TypeId { code: CODE_INT }),
            Dynamic::Char(_) => (TypeId { code: CODE_CHAR }),
            Dynamic::Str(_) => (TypeId { code: CODE_STR }),
        }
    }

    /// The token of the type of the value held.
    pub fn type_id(&self) -> (t: TypeId)
        ensures
            t == self.type_token(),
    {
        match self {
            Dynamic::Unit => (TypeId { code: CODE_UNIT }),
            Dynamic::Bool(_) => (TypeId { code: CODE_BOOL }),
            Dynamic::Int(_) => (TypeId { code: CODE_INT }),
            Dynamic::Char(_) => (TypeId { code: CODE_CHAR }),
            Dynamic::Str(_) => (TypeId { code: CODE_STR }),
        }
    }

    /// Wraps a native value.
    pub fn from<T: Variant>(value: T) -> (d: Dynamic)
        ensures
            d == value.wrap(),
    {
        value.into_dynamic()
    }

    /// Does the value have the native type `T`?
    pub fn is<T: Variant>(&self) -> (b: bool)
        ensures
            b == (self.type_token() == T::token()),
    {
        self.type_id().code == T::type_id().code
    }

    /// The native value held, if it has the type `T`.
    pub fn try_cast<T: Variant>(self) -> (r: Option<T>)
        ensures
            r is Some <==> self.type_token() == T::token(),
            r is Some ==> r.unwrap().wrap() == self,
    {
        T::unwrap_dynamic(self)
    }

    /// Moves the value out and leaves the unit value in its place.
    pub fn take(&mut self) -> (d: Dynamic)
        ensures
            d == *old(self),
            *final(self) == Dynamic::Unit,
    {
        let mut out = Dynamic::Unit;
        std::mem::swap(self, &mut out);
        out
    }
}

impl Clone for Dynamic {
    fn clone(&self) -> (d: Self)
        ensures
            d == *self,
    {
        match self {
            Dynamic::Unit => Dynamic::Unit,
            Dynamic::Bool(b) => Dynamic::Bool(*b),
            Dynamic::Int(i) => Dynamic::Int(*i),
            Dynamic::Char(c) => Dynamic::Char(*c),
            Dynamic::Str(s) => Dynamic::Str(s.clone()),
        }
    }
}

impl Default for Dynamic {
    fn default() -> (d: Self)
        ensures
            d == Dynamic::Unit,
    {
        Dynamic::Unit
    }
}

/// A native type whose values a `Dynamic` can hold.
pub trait Variant: Sized {
    /// The token that names this type.
    spec fn token() -> TypeId;

    /// The dynamic value that holds `self`.
    spec fn wrap(self) -> Dynamic;

    /// The token that names this type.
    fn type_id() -> (t: TypeId)
        ensures
            t == Self::token(),
    ;

    /// Wraps `self`.
    fn into_dynamic(self) -> (d: Dynamic)
        ensures
            d == self.wrap(),
            d.type_token() == Self::token(),
    ;

    /// Unwraps `d` if it holds a value of this type.
    fn unwrap_dynamic(d: Dynamic) -> (r: Option<Self>)
        ensures
            r is Some <==> d.type_token() == Self::token(),
            r is Some ==> r.unwrap().wrap() == d,
    ;
}

impl Variant for () {
    open spec fn token() -> TypeId {
        TypeId { code: CODE_UNIT }
    }

    open spec fn wrap(self) -> Dynamic {
        Dynamic::Unit
    }

    fn type_id() -> (t: TypeId) {
        TypeId { code: CODE_UNIT }
    }

    fn into_dynamic(self) -> (d: Dynamic) {
        Dynamic::Unit
    }

    fn unwrap_dynamic(d: Dynamic) -> (r: Option<Self>) {
        match d {
            Dynamic::Unit => Some(()),
            _ => None,
        }
    }
}

impl Variant for bool {
    open spec fn token() -> TypeId {
        TypeId { code: CODE_BOOL }
    }

    open spec fn wrap(self) -> Dynamic {
        Dynamic::Bool(self)
    }

    fn type_id() -> (t: TypeId) {
        TypeId { code: CODE_BOOL }
    }

    fn into_dynamic(self) -> (d: Dynamic) {
        Dynamic::Bool(self)
    }

    fn unwrap_dynamic(d: Dynamic) -> (r: Option<Self>) {
        match d {
            Dynamic::Bool(b) => Some(b),
            _ => None,
        }
    }
}

impl Variant for i64 {
    open spec fn token() -> TypeId {
        TypeId { code: CODE_INT }
    }

    open spec fn wrap(self) -> Dynamic {
        Dynamic::Int(self)
    }

    fn type_id() -> (t: TypeId) {
        TypeId { code: CODE_INT }
    }

    fn into_dynamic(self) -> (d: Dynamic) {
        Dynamic::Int(self)
    }

    fn unwrap_dynamic(d: Dynamic) -> (r: Option<Self>) {
        match d {
            Dynamic::Int(i) => Some(i),
            _ => None,
        }
    }
}

impl Variant for char {
    open spec fn token() -> TypeId {
        TypeId { code: CODE_CHAR }
    }

    open spec fn wrap(self) -> Dynamic {
        Dynamic::Char(self)
    }

    fn type_id() -> (t: TypeId) {
        TypeId { code: CODE_CHAR }
    }

    fn into_dynamic(self) -> (d: Dynamic) {
        Dynamic::Char(self)
    }

    fn unwrap_dynamic(d: Dynamic) -> (r: Option<Self>) {
        match d {
            Dynamic::Char(c) => Some(c),
            _ => None,
        }
    }
}

impl Variant for String {
    open spec fn token() -> TypeId {
        TypeId { code: CODE_STR }
    }

    open spec fn wrap(self) -> Dynamic {
        Dynamic::Str(self)
    }

    fn type_id() -> (t: TypeId) {
        TypeId { code: CODE_STR }
    }

    fn into_dynamic(self) -> (d: Dynamic) {
        Dynamic::Str(self)
    }

    fn unwrap_dynamic(d: Dynamic) -> (r: Option<Self>) {
        match d {
            Dynamic::Str(s) => Some(s),
            _ => None,
        }
    }
}

} // verus!
