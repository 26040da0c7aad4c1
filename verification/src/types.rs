//! Small value types shared by the whole crate.

use vstd::prelude::*;

verus! {

/// A location in a script's source text.
///
/// Line numbers start at 1; line 0 stands for "no position".
#[derive(Clone, Copy, Debug, PartialEq, Eq, Structural)]
pub struct Position {
    pub line: u16,
    pub pos: u16,
}

impl Position {
    /// The position of line `line`, column `pos`.
    pub fn new(line: u16, pos: u16) -> (p: Self)
        ensures
            p == (Position { line, pos }),
    {
        Position { line, pos }
    }

    /// The marker for "no position available".
    pub fn none() -> (p: Self)
        ensures
            p == (Position { line: 0, pos: 0 }),
            p.is_none(),
    {
        Position { line: 0, pos: 0 }
    }

    /// The first position of a script: line 1, before its first character.
    pub fn start() -> (p: Self)
        ensures
            p == (Position { line: 1, pos: 0 }),
            !p.is_none(),
    {
        Position { line: 1, pos: 0 }
    }

    /// Is this the "no position" marker?
    #[verifier::when_used_as_spec(spec_is_none)]
    pub fn is_none(&self) -> (b: bool)
        ensures
            b == self.spec_is_none(),
    {
        self.line == 0
    }

    /// Is this the "no position" marker?
    pub open spec fn spec_is_none(&self) -> bool {
        self.line == 0
    }
}

impl Default for Position {
    /// The first position of a script.
    fn default() -> (p: Self)
        ensures
            p == (Position { line: 1, pos: 0 }),
    {
        Position::start()
    }
}

/// Who may call a function: everybody, or only code inside its own module.
#[derive(Clone, Copy, Debug, PartialEq, Eq, Structural)]
pub enum FnAccess {
    Private,
    Public,
}

/// An opaque token that names the runtime type of a value.
///
/// Two tokens stand for the same type exactly when their codes agree.
#[derive(Clone, Copy, Debug, PartialEq, Eq, Hash, Structural)]
pub struct TypeId {
    pub code: u64,
}

impl View for TypeId {
    type V = TypeId;

    open spec fn view(&self) -> TypeId {
        *self
    }
}

impl TypeId {
    /// The token with the given code.
    pub fn new(code: u64) -> (t: Self)
        ensures
            t.code == code,
    {
        TypeId { code }
    }
}

} // verus!
