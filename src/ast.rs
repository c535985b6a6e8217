//! The syntax tree that the parser produces.
use vstd::prelude::*;

verus! {

/// A program: its statements in execution order.
pub type Program = Vec<Stmt>;

/// A statement.
#[derive(Debug, PartialEq)]
pub enum Stmt {
    /// `Set NAME value`: variable assignment.
    SetVar { name: String, value: Expr },
    /// `Set NAME[index] value`: index assignment.
    SetIndex { object: Box<Expr>, index: Box<Expr>, value: Expr },
    FuncDef { name: String, params: Vec<String>, body: Vec<Stmt> },
    GeneratorDef { name: String, params: Vec<String>, body: Vec<Stmt> },
    LazyDef { name: String, expr: Expr },
    Return(Expr),
    Yield(Expr),
    Break,
    Continue,
    While { condition: Expr, body: Vec<Stmt> },
    For { var: String, iterable: Expr, body: Vec<Stmt> },
    ForIndexed { index_var: String, value_var: String, iterable: Expr, body: Vec<Stmt> },
    Switch { expr: Expr, cases: Vec<(Expr, Vec<Stmt>)>, default: Option<Vec<Stmt>> },
    /// Imported names with their aliases, index for index.
    Import { names: Vec<String>, path: String, aliases: Vec<Option<String>> },
    Export(String),
    Throw(Expr),
    Expression(Expr),
}

/// An expression. A numeric literal keeps the text it was written with.
#[derive(Debug, PartialEq)]
pub enum Expr {
    Number(String),
    BigInteger(String),
    String(String),
    Boolean(bool),
    Null,
    Identifier(String),
    Array(Vec<Expr>),
    /// Key-value pairs in source order; duplicate keys are kept.
    Dict(Vec<(String, Expr)>),
    Binary { left: Box<Expr>, op: BinOp, right: Box<Expr> },
    Unary { op: UnaryOp, expr: Box<Expr> },
    Call { func: Box<Expr>, args: Vec<Expr> },
    Index { object: Box<Expr>, index: Box<Expr> },
    If {
        condition: Box<Expr>,
        then_branch: Vec<Stmt>,
        elif_branches: Vec<(Expr, Vec<Stmt>)>,
        else_branch: Option<Vec<Stmt>>,
    },
    Lambda { params: Vec<String>, body: Vec<Stmt> },
}

/// Binary operators of the language.
#[derive(Debug, Clone, Copy, PartialEq, Eq, Structural)]
pub enum BinOp {
    Add,
    Subtract,
    Multiply,
    Divide,
    Modulo,
    Equal,
    NotEqual,
    Less,
    LessEqual,
    Greater,
    GreaterEqual,
    And,
    Or,
}

/// Prefix operators of the language.
#[derive(Debug, Clone, Copy, PartialEq, Eq, Structural)]
pub enum UnaryOp {
    Minus,
    Not,
}

impl Expr {
    /// `left op right`.
    pub fn binary(left: Expr, op: BinOp, right: Expr) -> (r: Self)
        ensures
            r == (Expr::Binary { left: Box::new(left), op, right: Box::new(right) }),
    {
        Expr::Binary { left: Box::new(left), op, right: Box::new(right) }
    }

    /// `op expr`.
    pub fn unary(op: UnaryOp, expr: Expr) -> (r: Self)
        ensures
            r == (Expr::Unary { op, expr: Box::new(expr) }),
    {
        Expr::Unary { op, expr: Box::new(expr) }
    }

    /// `func(args...)`.
    pub fn call(func: Expr, args: Vec<Expr>) -> (r: Self)
        ensures
            r == (Expr::Call { func: Box::new(func), args }),
    {
        Expr::Call { func: Box::new(func), args }
    }

    /// `object[index]`.
    pub fn index(object: Expr, index: Expr) -> (r: Self)
        ensures
            r == (Expr::Index { object: Box::new(object), index: Box::new(index) }),
    {
        Expr::Index { object: Box::new(object), index: Box::new(index) }
    }
}

} // verus!
