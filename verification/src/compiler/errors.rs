//! Errors reported by the compiler front end.

use vstd::prelude::*;
use vstd::string::StringExecFns;

verus! {

/// A syntactic construct that the front end recognises but does not handle.
#[derive(Clone, Copy, Debug, PartialEq, Eq, Structural)]
pub enum Construct {
    /// A list used as an assignment target.
    ListTarget,
    /// An `from ... import ...` statement.
    ImportFrom,
    /// A function definition that would have to be lowered.
    FunctionDef,
    /// A statement kind without a lowering.
    Statement,
    /// An expression kind without a lowering.
    Expression,
}

/// Why a compilation step failed.
#[derive(Debug, PartialEq, Eq)]
pub enum CompilerError {
    /// A bad or unsupported file path; holds the message.
    IOError(String),
    /// An identifier that no scope of the active stack binds; holds the identifier.
    NameError(String),
    /// A construct that is not handled.
    Unsupported(Construct),
    /// A scope whose slots would reach beyond the largest address.
    ScopeOverflow,
}

/// The mathematical model of a [`CompilerError`]: strings as sequences of characters.
pub enum CompilerErrorView {
    IOError(Seq<char>),
    NameError(Seq<char>),
    Unsupported(Construct),
    ScopeOverflow,
}

impl View for CompilerError {
    type V = CompilerErrorView;

    open spec fn view(&self) -> CompilerErrorView {
        match *self {
            CompilerError::IOError(msg) => CompilerErrorView::IOError(msg@),
            CompilerError::NameError(id) => CompilerErrorView::NameError(id@),
            CompilerError::Unsupported(c) => CompilerErrorView::Unsupported(c),
            CompilerError::ScopeOverflow => CompilerErrorView::ScopeOverflow,
        }
    }
}

/// The words that describe a construct in a message.
pub open spec fn construct_text(c: Construct) -> Seq<char> {
    match c {
        Construct::ListTarget => "list assignment target"@,
        Construct::ImportFrom => "import from"@,
        Construct::FunctionDef => "function definition"@,
        Construct::Statement => "statement"@,
        Construct::Expression => "expression"@,
    }
}

/// The message of an error, as written by [`CompilerError::message`].
pub open spec fn message_text(e: CompilerErrorView) -> Seq<char> {
    match e {
        CompilerErrorView::IOError(msg) => "IOError: "@ + msg,
        CompilerErrorView::NameError(id) => "NameError: name '"@ + id + "' is not defined"@,
        CompilerErrorView::Unsupported(c) => "unsupported construct: "@ + construct_text(c),
        CompilerErrorView::ScopeOverflow => "OverflowError: too many names in scope"@,
    }
}

impl Construct {
    /// The words that describe this construct in a message.
    pub fn describe(&self) -> (text: &'static str)
        ensures
            text@ == construct_text(*self),
    {
        match self {
            Construct::ListTarget => "list assignment target",
            Construct::ImportFrom => "import from",
            Construct::FunctionDef => "function definition",
            Construct::Statement => "statement",
            Construct::Expression => "expression",
        }
    }
}

impl CompilerError {
    /// A message for the user.
    pub fn message(&self) -> (text: String)
        ensures
            text@ == message_text(self@),
    {
        match self {
            CompilerError::IOError(msg) => String::from_str("IOError: ").concat(msg.as_str()),
            CompilerError::NameError(id) => {
                String::from_str("NameError: name '").concat(id.as_str()).concat(
                    "' is not defined",
                )
            },
            CompilerError::Unsupported(c) => {
                String::from_str("unsupported construct: ").concat(c.describe())
            },
            CompilerError::ScopeOverflow => String::from_str(
                "OverflowError: too many names in scope",
            ),
        }
    }
}

} // verus!
