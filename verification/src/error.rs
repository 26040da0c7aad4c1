//! The errors that evaluation and module handling report.

use vstd::prelude::*;
use vstd::string::*;
use crate::types::Position;

verus! {

/// Why evaluation stopped. Each error carries the position it is reported at.
#[derive(Debug, PartialEq, Eq)]
pub enum EvalAltResult {
    /// The script could not be compiled; holds the parser's message.
    ErrorParsing(String, Position),
    /// A qualified variable is in no index; holds its name as written.
    ErrorVariableNotFound(String, Position),
    /// A qualified function is in no index; holds its name as written.
    ErrorFunctionNotFound(String, Position),
    /// No module is to be had for an import path; holds the path.
    ErrorModuleNotFound(String, Position),
    /// The script failed while it ran; holds the message.
    ErrorRuntime(String, Position),
}

/// What a function of a module returns: a value, or the error that stopped it.
pub type FuncReturn<T> = Result<T, Box<EvalAltResult>>;

impl EvalAltResult {
    /// The text that the error carries: a name, a path or a message.
    pub open spec fn text(&self) -> Seq<char> {
        match self {
            EvalAltResult::ErrorParsing(s, _) => s@,
            EvalAltResult::ErrorVariableNotFound(s, _) => s@,
            EvalAltResult::ErrorFunctionNotFound(s, _) => s@,
            EvalAltResult::ErrorModuleNotFound(s, _) => s@,
            EvalAltResult::ErrorRuntime(s, _) => s@,
        }
    }

    /// The position that the error is reported at.
    pub open spec fn spec_position(&self) -> Position {
        match self {
            EvalAltResult::ErrorParsing(_, p) => *p,
            EvalAltResult::ErrorVariableNotFound(_, p) => *p,
            EvalAltResult::ErrorFunctionNotFound(_, p) => *p,
            EvalAltResult::ErrorModuleNotFound(_, p) => *p,
            EvalAltResult::ErrorRuntime(_, p) => *p,
        }
    }

    /// The same error, reported at `pos`.
    pub open spec fn at(self, pos: Position) -> EvalAltResult {
        match self {
            EvalAltResult::ErrorParsing(s, _) => EvalAltResult::ErrorParsing(s, pos),
            EvalAltResult::ErrorVariableNotFound(s, _) => EvalAltResult::ErrorVariableNotFound(
                s,
                pos,
            ),
            EvalAltResult::ErrorFunctionNotFound(s, _) => EvalAltResult::ErrorFunctionNotFound(
                s,
                pos,
            ),
            EvalAltResult::ErrorModuleNotFound(s, _) => EvalAltResult::ErrorModuleNotFound(s, pos),
            EvalAltResult::ErrorRuntime(s, _) => EvalAltResult::ErrorRuntime(s, pos),
        }
    }

    /// The position that the error is reported at.
    #[verifier::when_used_as_spec(spec_position)]
    pub fn position(&self) -> (p: Position)
        ensures
            p == self.spec_position(),
    {
        match self {
            EvalAltResult::ErrorParsing(_, p) => *p,
            EvalAltResult::ErrorVariableNotFound(_, p) => *p,
            EvalAltResult::ErrorFunctionNotFound(_, p) => *p,
            EvalAltResult::ErrorModuleNotFound(_, p) => *p,
            EvalAltResult::ErrorRuntime(_, p) => *p,
        }
    }

    /// Moves the error to `pos`: its kind and text stay, its position is replaced.
    pub fn new_position(self: Box<Self>, pos: Position) -> (e: Box<Self>)
        ensures
            *e == (*self).at(pos),
    {
        let moved = match *self {
            EvalAltResult::ErrorParsing(s, _) => EvalAltResult::ErrorParsing(s, pos),
            EvalAltResult::ErrorVariableNotFound(s, _) => EvalAltResult::ErrorVariableNotFound(
                s,
                pos,
            ),
            EvalAltResult::ErrorFunctionNotFound(s, _) => EvalAltResult::ErrorFunctionNotFound(
                s,
                pos,
            ),
            EvalAltResult::ErrorModuleNotFound(s, _) => EvalAltResult::ErrorModuleNotFound(s, pos),
            EvalAltResult::ErrorRuntime(s, _) => EvalAltResult::ErrorRuntime(s, pos),
        };
        Box::new(moved)
    }
}

} // verus!
