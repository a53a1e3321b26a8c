//! Errors raised by evaluation, each with a source position.

use crate::dynamic::{Dynamic, Val};
use vstd::prelude::*;

verus! {

/// A place in the source text.
#[derive(Debug, Clone, Copy, PartialEq, Eq, Structural)]
pub struct Position {
    pub line: u32,
    pub col: u32,
}

impl Position {
    /// The position of something that has none in the source text.
    pub fn none() -> (r: Position)
        ensures
            r.line == 0 && r.col == 0,
    {
        Position { line: 0, col: 0 }
    }
}

/// Why a built-in arithmetic operation failed.
#[derive(Debug, Clone, Copy, PartialEq, Eq, Structural)]
pub enum ArithError {
    AddOverflow,
    SubOverflow,
    MulOverflow,
    DivByZero,
    DivOverflow,
    RemByZeroOrOverflow,
    PowNegativeIndex,
    PowIndexTooLarge,
    PowOverflow,
    ShlTooFar,
    ShrTooFar,
}

/// An evaluation error.
#[derive(Debug)]
pub enum EvalError {
    VariableNotFound(String, Position),
    ModuleNotFound(String, Position),
    UnboundThis(Position),
    /// A call that no function matches, with its signature.
    FunctionNotFound(String, Position),
    /// The expected type name, then the actual one.
    TypeMismatch(String, String, Position),
    Arithmetic(ArithError, Position),
    DataTooLarge(Position),
    TooManyOperations(Position),
    AssignmentToConstant(String, Position),
    /// A custom syntax form whose first token is not registered.
    CustomSyntax(String, Position),
    /// A value thrown by the script.
    Runtime(Dynamic, Position),
}

/// The mathematical content of an [`EvalError`].
pub enum ErrVal {
    VariableNotFound(Seq<char>, Position),
    ModuleNotFound(Seq<char>, Position),
    UnboundThis(Position),
    FunctionNotFound(Seq<char>, Position),
    TypeMismatch(Seq<char>, Seq<char>, Position),
    Arithmetic(ArithError, Position),
    DataTooLarge(Position),
    TooManyOperations(Position),
    AssignmentToConstant(Seq<char>, Position),
    CustomSyntax(Seq<char>, Position),
    Runtime(Val, Position),
}

impl EvalError {
    pub open spec fn view(&self) -> ErrVal {
        match self {
            EvalError::VariableNotFound(s, p) => ErrVal::VariableNotFound(s@, *p),
            EvalError::ModuleNotFound(s, p) => ErrVal::ModuleNotFound(s@, *p),
            EvalError::UnboundThis(p) => ErrVal::UnboundThis(*p),
            EvalError::FunctionNotFound(s, p) => ErrVal::FunctionNotFound(s@, *p),
            EvalError::TypeMismatch(a, b, p) => ErrVal::TypeMismatch(a@, b@, *p),
            EvalError::Arithmetic(e, p) => ErrVal::Arithmetic(*e, *p),
            EvalError::DataTooLarge(p) => ErrVal::DataTooLarge(*p),
            EvalError::TooManyOperations(p) => ErrVal::TooManyOperations(*p),
            EvalError::AssignmentToConstant(s, p) => ErrVal::AssignmentToConstant(s@, *p),
            EvalError::CustomSyntax(s, p) => ErrVal::CustomSyntax(s@, *p),
            EvalError::Runtime(v, p) => ErrVal::Runtime(v@, *p),
        }
    }
}

/// The position an error carries.
pub open spec fn err_pos(e: ErrVal) -> Position {
    match e {
        ErrVal::VariableNotFound(_, p) => p,
        ErrVal::ModuleNotFound(_, p) => p,
        ErrVal::UnboundThis(p) => p,
        ErrVal::FunctionNotFound(_, p) => p,
        ErrVal::TypeMismatch(_, _, p) => p,
        ErrVal::Arithmetic(_, p) => p,
        ErrVal::DataTooLarge(p) => p,
        ErrVal::TooManyOperations(p) => p,
        ErrVal::AssignmentToConstant(_, p) => p,
        ErrVal::CustomSyntax(_, p) => p,
        ErrVal::Runtime(_, p) => p,
    }
}

/// `e` with its position replaced.
pub open spec fn with_pos(e: ErrVal, q: Position) -> ErrVal {
    match e {
        ErrVal::VariableNotFound(s, _) => ErrVal::VariableNotFound(s, q),
        ErrVal::ModuleNotFound(s, _) => ErrVal::ModuleNotFound(s, q),
        ErrVal::UnboundThis(_) => ErrVal::UnboundThis(q),
        ErrVal::FunctionNotFound(s, _) => ErrVal::FunctionNotFound(s, q),
        ErrVal::TypeMismatch(a, b, _) => ErrVal::TypeMismatch(a, b, q),
        ErrVal::Arithmetic(k, _) => ErrVal::Arithmetic(k, q),
        ErrVal::DataTooLarge(_) => ErrVal::DataTooLarge(q),
        ErrVal::TooManyOperations(_) => ErrVal::TooManyOperations(q),
        ErrVal::AssignmentToConstant(s, _) => ErrVal::AssignmentToConstant(s, q),
        ErrVal::CustomSyntax(s, _) => ErrVal::CustomSyntax(s, q),
        ErrVal::Runtime(v, _) => ErrVal::Runtime(v, q),
    }
}

impl EvalError {
    /// This error, with `pos` filled in where it carries no position.
    pub fn fill_position(self, pos: Position) -> (r: EvalError)
        ensures
            r@ == if err_pos(self@) == (Position { line: 0, col: 0 }) {
                with_pos(self@, pos)
            } else {
                self@
            },
    {
        let none = Position::none();
        match self {
            EvalError::VariableNotFound(s, p) => EvalError::VariableNotFound(s, if p == none { pos } else { p }),
            EvalError::ModuleNotFound(s, p) => EvalError::ModuleNotFound(s, if p == none { pos } else { p }),
            EvalError::UnboundThis(p) => EvalError::UnboundThis(if p == none { pos } else { p }),
            EvalError::FunctionNotFound(s, p) => EvalError::FunctionNotFound(s, if p == none { pos } else { p }),
            EvalError::TypeMismatch(a, b, p) => EvalError::TypeMismatch(a, b, if p == none { pos } else { p }),
            EvalError::Arithmetic(k, p) => EvalError::Arithmetic(k, if p == none { pos } else { p }),
            EvalError::DataTooLarge(p) => EvalError::DataTooLarge(if p == none { pos } else { p }),
            EvalError::TooManyOperations(p) => EvalError::TooManyOperations(if p == none { pos } else { p }),
            EvalError::AssignmentToConstant(s, p) => EvalError::AssignmentToConstant(s, if p == none { pos } else { p }),
            EvalError::CustomSyntax(s, p) => EvalError::CustomSyntax(s, if p == none { pos } else { p }),
            EvalError::Runtime(v, p) => EvalError::Runtime(v, if p == none { pos } else { p }),
        }
    }
}

} // verus!
