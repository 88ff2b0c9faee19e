use vstd::prelude::*;

verus! {

/// A node of the syntax tree together with the byte offsets `[l, r)` of the
/// source text it was parsed from.
#[derive(Debug)]
pub struct Located<T> {
    pub l: usize,
    pub r: usize,
    pub node: T,
}

pub type Identifier = Located<String>;

pub type Expression = Located<ExpressionKind>;

pub type Statement = Located<StatementKind>;

/// A parsed program: top-level bindings, then the expression whose value is
/// the program's result.
#[derive(Debug)]
pub struct Jml {
    pub header: Vec<Statement>,
    pub body: Expression,
}

#[derive(Debug)]
pub enum StatementKind {
    Bind { identifier: Identifier, expression: Expression },
}

/// The key of an object-constructor entry: a bare name, or an expression
/// computed at run time.
#[derive(Debug)]
pub enum Key {
    Ident(Identifier),
    Expression(Expression),
}

#[derive(Debug)]
pub enum ExpressionKind {
    Null,
    /// A floating-point literal, held as its IEEE-754 binary64 bit pattern.
    Float(u64),
    Bool(bool),
    Int(i64),
    String(String),
    Object(Vec<(Key, Expression)>),
    List(Vec<Expression>),
    Variable(String),
    IndexAccess { target: Box<Expression>, index: Box<Expression> },
    Selector { target: Box<Expression>, key: String },
    UnaryOp { op: UnaryOp, expr: Box<Expression> },
    BinaryOp { op: BinaryOp, lhs: Box<Expression>, rhs: Box<Expression> },
    IfExpr {
        condition: Box<Expression>,
        then_branch: Box<Expression>,
        else_branch: Box<Expression>,
    },
    Lambda { params: Vec<Identifier>, body: Box<Expression> },
    Apply { lambda: Box<Expression>, args: Vec<Expression> },
}

#[derive(Debug, Copy, Clone, PartialEq, Eq, Structural)]
pub enum BinaryOp {
    EQ,
    NE,
    GT,
    LT,
    GE,
    LE,
    Sum,
    Sub,
    Mul,
    Div,
    Pow,
    Mod,
    And,
    Or,
    Concat,
}

#[derive(Debug, Copy, Clone, PartialEq, Eq, Structural)]
pub enum UnaryOp {
    Minus,
    Not,
}

} // verus!
