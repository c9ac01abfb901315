//! The syntax-tree model the extraction works on: a closed set of node
//! kinds, read only by borrowing.
use vstd::prelude::*;

verus! {

/// An expression of the program.
pub enum Expr {
    /// An identifier reference, with its name.
    Ident(String),
    /// A string literal, with its de-escaped value.
    Str(String),
    /// A numeric literal, with its value written in shortest decimal form.
    Num(String),
    /// A call.
    Call(Call),
    /// A static member access `object.property`.
    Member(Box<Expr>, String),
    /// A computed member access `object[...]`.
    ComputedMember(Box<Expr>),
    /// An object literal.
    Object(ObjectExpr),
    /// An array literal.
    Array(ArrayExpr),
    /// An arrow function or a function expression.
    Function(Function),
    /// Any other expression.
    Other,
}

/// A call `callee(arguments...)`; a spread argument is `Expr::Other`.
pub struct Call {
    pub callee: Box<Expr>,
    pub arguments: Vec<Expr>,
}

/// A property of an object literal. `key` is `None` for a computed key and
/// for a spread property.
pub struct Property {
    pub key: Option<String>,
    pub value: Expr,
}

/// An object literal: its properties in source order, keys possibly repeated.
pub struct ObjectExpr {
    pub properties: Vec<Property>,
}

/// An array literal: its elements in source order, `None` for a hole.
pub struct ArrayExpr {
    pub elements: Vec<Option<Expr>>,
}

/// The body of a function.
pub enum Body {
    /// The abbreviated form `() => expr`.
    Expression(Box<Expr>),
    /// A statement list.
    Statements(Vec<Stmt>),
}

/// An arrow function or function expression; only its body is read.
pub struct Function {
    pub body: Body,
}

/// One binding of a variable declaration. `name` is `None` for a
/// destructuring pattern.
pub struct Declarator {
    pub name: Option<String>,
    pub init: Option<Expr>,
}

/// A statement.
pub enum Stmt {
    /// A variable declaration with its bindings in order.
    Variables(Vec<Declarator>),
    /// An expression statement.
    Expression(Expr),
    /// A return statement with its optional argument.
    Return(Option<Expr>),
    /// Any other statement.
    Other,
}

/// A whole program: its top-level statements in order.
pub struct Program {
    pub body: Vec<Stmt>,
}

/// The kinds of node that the navigation tells apart.
#[derive(Clone, Copy, Debug, PartialEq, Eq, Structural)]
pub enum NodeKind {
    Identifier,
    StringLiteral,
    NumericLiteral,
    CallExpression,
    StaticMember,
    ComputedMember,
    ObjectExpression,
    ArrayExpression,
    Function,
    OtherExpression,
}

/// The kind of an expression.
pub open spec fn kind_of(e: Expr) -> NodeKind {
    match e {
        Expr::Ident(_) => NodeKind::Identifier,
        Expr::Str(_) => NodeKind::StringLiteral,
        Expr::Num(_) => NodeKind::NumericLiteral,
        Expr::Call(_) => NodeKind::CallExpression,
        Expr::Member(..) => NodeKind::StaticMember,
        Expr::ComputedMember(_) => NodeKind::ComputedMember,
        Expr::Object(_) => NodeKind::ObjectExpression,
        Expr::Array(_) => NodeKind::ArrayExpression,
        Expr::Function(_) => NodeKind::Function,
        Expr::Other => NodeKind::OtherExpression,
    }
}

impl Expr {
    /// The kind of this expression.
    pub fn kind(&self) -> (k: NodeKind)
        ensures
            k == kind_of(*self),
    {
        match self {
            Expr::Ident(_) => NodeKind::Identifier,
            Expr::Str(_) => NodeKind::StringLiteral,
            Expr::Num(_) => NodeKind::NumericLiteral,
            Expr::Call(_) => NodeKind::CallExpression,
            Expr::Member(..) => NodeKind::StaticMember,
            Expr::ComputedMember(_) => NodeKind::ComputedMember,
            Expr::Object(_) => NodeKind::ObjectExpression,
            Expr::Array(_) => NodeKind::ArrayExpression,
            Expr::Function(_) => NodeKind::Function,
            Expr::Other => NodeKind::OtherExpression,
        }
    }
}

} // verus!
