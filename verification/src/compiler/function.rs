//! A lowered function.

use crate::compiler::cfg::{CfgView, CFG};
use vstd::prelude::*;

verus! {

/// A function: its name, the type it returns and its graph.
#[derive(Debug, PartialEq, Eq)]
pub struct Function {
    pub name: String,
    pub return_type: String,
    pub graph: CFG,
}

/// The mathematical model of a [`Function`].
#[verifier::ext_equal]
pub struct FunctionView {
    pub name: Seq<char>,
    pub return_type: Seq<char>,
    pub graph: CfgView,
}

impl View for Function {
    type V = FunctionView;

    open spec fn view(&self) -> FunctionView {
        FunctionView { name: self.name@, return_type: self.return_type@, graph: self.graph@ }
    }
}

} // verus!
