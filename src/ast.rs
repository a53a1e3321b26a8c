//! The abstract syntax tree that the parser hands to the evaluator.

use crate::dynamic::Dynamic;
use crate::error::Position;
use vstd::prelude::*;

verus! {

/// The module path of a qualified name: `a::b::c` in `a::b::c::NAME`.
#[derive(Debug)]
pub struct Namespace {
    pub path: Vec<String>,
    /// The parser's hint: the distance of the root module from the top of
    /// the import stack (1 for the last import).
    pub index: Option<usize>,
    pub pos: Position,
}

/// A variable reference.
#[derive(Debug)]
pub struct VarExpr {
    /// The parser's hint: the distance of the binding from the top of the
    /// scope (1 for the last binding).
    pub index: Option<usize>,
    pub namespace: Namespace,
    pub name: String,
    pub pos: Position,
}

/// A function call.
#[derive(Debug)]
pub struct FnCallExpr {
    pub name: String,
    /// The call-site hash that the parser computed from the name and arity.
    pub hash: u64,
    pub args: Vec<Expr>,
    pub namespace: Namespace,
    /// Is this a call of a native operator (`+`, `==`, ...)?
    pub is_native_operator: bool,
    pub pos: Position,
}

/// An expression.
#[derive(Debug)]
pub enum Expr {
    DynamicConstant(Dynamic, Position),
    IntegerConstant(i64, Position),
    StringConstant(String, Position),
    CharConstant(char, Position),
    BoolConstant(bool, Position),
    Unit(Position),
    Variable(Box<VarExpr>),
    /// The parts of an interpolated string, concatenated in order.
    InterpolatedString(Vec<Expr>, Position),
    Array(Vec<Expr>, Position),
    /// An object map literal: keys, in source order, with their value
    /// expressions.
    Object(Vec<(String, Expr)>, Position),
    And(Box<Expr>, Box<Expr>, Position),
    Or(Box<Expr>, Box<Expr>, Position),
    Coalesce(Box<Expr>, Box<Expr>, Position),
    FnCall(Box<FnCallExpr>),
    /// A method call `object.f(args)`: `f` is called with the object first.
    Dot(Box<Expr>, Box<FnCallExpr>, Position),
    /// A statement block used as an expression.
    Stmt(Vec<Stmt>, Position),
    /// A custom syntax form: its tokens, the first of which names it, and
    /// its input expressions.
    Custom(Box<CustomExpr>),
}

/// A custom syntax form.
#[derive(Debug)]
pub struct CustomExpr {
    pub tokens: Vec<String>,
    pub inputs: Vec<Expr>,
    pub pos: Position,
}

/// A statement.
#[derive(Debug)]
pub enum Stmt {
    Noop,
    Expr(Expr),
    /// `let name = expr` or, when the flag is set, `const name = expr`.
    Let(String, Expr, bool, Position),
    /// `name = expr`.
    Assign(String, Expr, Position),
    /// `name op= expr`, with the operator symbol (`+=`, ...).
    OpAssign(String, String, Expr, Position),
    If(Expr, Vec<Stmt>, Vec<Stmt>, Position),
    While(Expr, Vec<Stmt>, Position),
    /// `for name in expr { ... }` over an integer range.
    For(String, Expr, Vec<Stmt>, Position),
}

/// A function defined by the script.
#[derive(Debug)]
pub struct ScriptFnDef {
    pub name: String,
    pub params: Vec<String>,
    pub body: Vec<Stmt>,
}

/// A compiled script: its statements and its function library.
#[derive(Debug)]
pub struct AST {
    pub statements: Vec<Stmt>,
    pub lib: Vec<ScriptFnDef>,
}

impl Expr {
    /// The position of this expression.
    pub open spec fn pos(&self) -> Position {
        match self {
            Expr::DynamicConstant(_, p) => *p,
            Expr::IntegerConstant(_, p) => *p,
            Expr::StringConstant(_, p) => *p,
            Expr::CharConstant(_, p) => *p,
            Expr::BoolConstant(_, p) => *p,
            Expr::Unit(p) => *p,
            Expr::Variable(v) => v.pos,
            Expr::InterpolatedString(_, p) => *p,
            Expr::Array(_, p) => *p,
            Expr::Object(_, p) => *p,
            Expr::And(_, _, p) => *p,
            Expr::Or(_, _, p) => *p,
            Expr::Coalesce(_, _, p) => *p,
            Expr::FnCall(f) => f.pos,
            Expr::Dot(_, _, p) => *p,
            Expr::Stmt(_, p) => *p,
            Expr::Custom(c) => c.pos,
        }
    }

    /// The position of this expression.
    pub fn position(&self) -> (r: Position)
        ensures
            r == self.pos(),
    {
        match self {
            Expr::DynamicConstant(_, p) => *p,
            Expr::IntegerConstant(_, p) => *p,
            Expr::StringConstant(_, p) => *p,
            Expr::CharConstant(_, p) => *p,
            Expr::BoolConstant(_, p) => *p,
            Expr::Unit(p) => *p,
            Expr::Variable(v) => v.pos,
            Expr::InterpolatedString(_, p) => *p,
            Expr::Array(_, p) => *p,
            Expr::Object(_, p) => *p,
            Expr::And(_, _, p) => *p,
            Expr::Or(_, _, p) => *p,
            Expr::Coalesce(_, _, p) => *p,
            Expr::FnCall(f) => f.pos,
            Expr::Dot(_, _, p) => *p,
            Expr::Stmt(_, p) => *p,
            Expr::Custom(c) => c.pos,
        }
    }
}

} // verus!
