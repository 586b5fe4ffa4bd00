//! A lowered program.

use crate::compiler::function::{Function, FunctionView};
use vstd::prelude::*;

verus! {

/// The functions of a program. The function that holds the statements of
/// the module's top level, `main`, comes first.
#[derive(Debug, PartialEq, Eq)]
pub struct Program {
    pub funcs: Vec<Function>,
}

impl View for Program {
    type V = Seq<FunctionView>;

    open spec fn view(&self) -> Seq<FunctionView> {
        Seq::new(self.funcs@.len(), |i: int| self.funcs@[i]@)
    }
}

} // verus!
