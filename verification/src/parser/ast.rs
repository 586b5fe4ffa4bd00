//! The abstract syntax tree of a parsed module.
//!
//! The tree is produced by the parser and only read by the compiler.

use vstd::prelude::*;

verus! {

/// The root of a parsed source file.
#[derive(Debug, PartialEq, Eq)]
pub enum Ast {
    Module { body: Vec<Statement> },
}

/// A statement.
#[allow(inconsistent_fields)]
#[derive(Debug, PartialEq, Eq)]
pub enum Statement {
    FunctionDef {
        name: String,
        args: Arguments,
        body: Vec<Statement>,
        decorator_list: Vec<Expression>,
        returns: Option<Expression>,
    },
    ClassDef {
        name: String,
        bases: Vec<Expression>,
        body: Vec<Statement>,
        decorator_list: Vec<Expression>,
    },
    Return { value: Option<Expression> },
    Delete { targets: Vec<Expression> },
    Assign { targets: Vec<Expression>, value: Expression },
    AugAssign { target: Expression, op: Operator, value: Expression },
    For { target: Expression, iter: Expression, body: Vec<Statement>, orelse: Vec<Statement> },
    While { test: Expression, body: Vec<Statement>, orelse: Vec<Statement> },
    If { test: Expression, body: Vec<Statement>, orelse: Vec<Statement> },
    Raise { exc: Option<Expression>, cause: Option<Expression> },
    Assert { test: Expression, msg: Option<Expression> },
    Import { names: Vec<Alias> },
    ImportFrom { module: Option<String>, names: Vec<Alias>, level: usize },
    Global { names: Vec<String> },
    Nonlocal { names: Vec<String> },
    Expr { value: Expression },
    Pass,
    Break,
    Continue,
}

/// An expression.
#[allow(inconsistent_fields)]
#[derive(Debug, PartialEq, Eq)]
pub enum Expression {
    BoolOp { op: BoolOperator, values: Vec<Expression> },
    BinOp { left: Box<Expression>, op: Operator, right: Box<Expression> },
    UnaryOp { op: UnaryOperator, operand: Box<Expression> },
    Call { func: Box<Expression>, args: Vec<Expression> },
    Num { n: Number },
    Str { s: String },
    NameConstant { value: Singleton },
    Attribute { value: Box<Expression>, attr: String, ctx: ExprContext },
    Subscript { value: Box<Expression>, index: Box<Expression>, ctx: ExprContext },
    Name { id: String, ctx: ExprContext },
    List { elts: Vec<Expression>, ctx: ExprContext },
    Tuple { elts: Vec<Expression>, ctx: ExprContext },
}

/// How a name, attribute, subscript, list or tuple is used.
#[derive(Clone, Copy, Debug, PartialEq, Eq, Structural)]
pub enum ExprContext {
    Load,
    Store,
    Del,
}

/// `and` and `or`.
#[derive(Clone, Copy, Debug, PartialEq, Eq, Structural)]
pub enum BoolOperator {
    And,
    Or,
}

/// A binary arithmetic or bitwise operator.
#[derive(Clone, Copy, Debug, PartialEq, Eq, Structural)]
pub enum Operator {
    Add,
    Sub,
    Mult,
    MatMult,
    Div,
    Mod,
    Pow,
    LShift,
    RShift,
    BitOr,
    BitXor,
    BitAnd,
    FloorDiv,
}

/// A unary operator.
#[derive(Clone, Copy, Debug, PartialEq, Eq, Structural)]
pub enum UnaryOperator {
    Invert,
    Not,
    UAdd,
    USub,
}

/// The constants `None`, `True` and `False`.
#[derive(Clone, Copy, Debug, PartialEq, Eq, Structural)]
pub enum Singleton {
    NoneValue,
    True,
    False,
}

/// A numeric literal, kept as the text that was read.
#[derive(Debug, PartialEq, Eq)]
pub enum Number {
    DecInteger(String),
    BinInteger(String),
    OctInteger(String),
    HexInteger(String),
    Float(String),
    Imaginary(String),
}

/// The mathematical model of a [`Number`]: the text as a sequence of characters.
pub enum NumberView {
    DecInteger(Seq<char>),
    BinInteger(Seq<char>),
    OctInteger(Seq<char>),
    HexInteger(Seq<char>),
    Float(Seq<char>),
    Imaginary(Seq<char>),
}

impl View for Number {
    type V = NumberView;

    open spec fn view(&self) -> NumberView {
        match *self {
            Number::DecInteger(s) => NumberView::DecInteger(s@),
            Number::BinInteger(s) => NumberView::BinInteger(s@),
            Number::OctInteger(s) => NumberView::OctInteger(s@),
            Number::HexInteger(s) => NumberView::HexInteger(s@),
            Number::Float(s) => NumberView::Float(s@),
            Number::Imaginary(s) => NumberView::Imaginary(s@),
        }
    }
}

impl Clone for Number {
    fn clone(&self) -> (copy: Number)
        ensures
            copy == *self,
    {
        match self {
            Number::DecInteger(s) => Number::DecInteger(s.clone()),
            Number::BinInteger(s) => Number::BinInteger(s.clone()),
            Number::OctInteger(s) => Number::OctInteger(s.clone()),
            Number::HexInteger(s) => Number::HexInteger(s.clone()),
            Number::Float(s) => Number::Float(s.clone()),
            Number::Imaginary(s) => Number::Imaginary(s.clone()),
        }
    }
}

/// The parameters of a function definition.
#[derive(Debug, PartialEq, Eq)]
pub enum Arguments {
    Arguments {
        args: Vec<Arg>,
        vararg: Option<Arg>,
        kwonlyargs: Vec<Arg>,
        kw_defaults: Vec<Option<Expression>>,
        kwarg: Option<Arg>,
        defaults: Vec<Expression>,
    },
}

/// One parameter.
#[derive(Debug, PartialEq, Eq)]
pub enum Arg {
    Arg { arg: String, annotation: Option<Expression> },
}

/// One imported name, with the name it is bound to if that differs.
#[derive(Debug, PartialEq, Eq)]
pub enum Alias {
    Alias { name: String, asname: Option<String> },
}

/// One `for ... in ... if ...` clause of a comprehension.
#[derive(Debug, PartialEq, Eq)]
pub enum Comprehension {
    Comprehension { target: Expression, iter: Expression, ifs: Vec<Expression> },
}

} // verus!
