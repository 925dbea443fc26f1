//! The syntax tree that the compiler consumes.
use vstd::prelude::*;

verus! {

/// A literal constant or a reference to a variable by name.
#[derive(Debug)]
pub enum ParseObj {
    Nil,
    Bool(bool),
    Int(i64),
    /// A binary64 number, by its bit pattern.
    Float(u64),
    Str(String),
    Ident(String),
}

/// A syntax node.
#[derive(Debug)]
pub struct Located<T> {
    pub node: T,
}

impl<T> Located<T> {
    pub fn new(node: T) -> (r: Located<T>)
        ensures
            r.node == node,
    {
        Located { node }
    }
}

pub type Stmt = Located<StmtKind>;

pub type Expr = Located<ExprKind>;

#[derive(Debug)]
pub enum StmtKind {
    ExprStmt { expr: Box<Expr> },
    VarDec { name: String, value: Box<Expr> },
    /// Declared by the grammar; the compiler does not support it.
    While { test: Box<Expr>, body: Vec<Stmt> },
}

#[derive(Debug)]
pub enum ExprKind {
    Literal { value: ParseObj },
    Group { body: Box<Expr> },
    Unary { op: UnaryOp, operand: Box<Expr> },
    Binary { left: Box<Expr>, op: BinaryOp, right: Box<Expr> },
    /// A sequence of statements; its value is that of the last one.
    Block { inner: Vec<Stmt> },
    /// An empty `orelse` is the same as no else-block.
    If { test: Box<Expr>, body: Vec<Stmt>, orelse: Vec<Stmt> },
}

#[derive(Debug, Clone, Copy, PartialEq, Eq, Structural)]
pub enum UnaryOp {
    Not,
    /// Declared by the grammar; the compiler does not support it.
    Minus,
}

#[derive(Debug, Clone, Copy, PartialEq, Eq, Structural)]
pub enum BinaryOp {
    Add,
    Sub,
    Mult,
    Div,
    Eq,
    NotEq,
    Gt,
    /// Declared by the grammar; the compiler does not support it.
    GtE,
    Lt,
    /// Declared by the grammar; the compiler does not support it.
    LtE,
    /// Declared by the grammar; the compiler does not support it.
    And,
    /// Declared by the grammar; the compiler does not support it.
    Or,
}

} // verus!
