//! Operands: what an instruction reads.

use crate::parser::ast::{Number, NumberView};
use vstd::prelude::*;

verus! {

/// An immediate literal, or the virtual register that holds a value
/// computed before.
#[derive(Debug, PartialEq, Eq)]
pub enum Operand {
    Immediate(Number),
    Register(usize),
}

/// The mathematical model of an [`Operand`].
pub enum OperandView {
    Immediate(NumberView),
    Register(usize),
}

impl View for Operand {
    type V = OperandView;

    open spec fn view(&self) -> OperandView {
        match *self {
            Operand::Immediate(n) => OperandView::Immediate(n@),
            Operand::Register(r) => OperandView::Register(r),
        }
    }
}

impl Clone for Operand {
    fn clone(&self) -> (copy: Operand)
        ensures
            copy == *self,
    {
        match self {
            Operand::Immediate(n) => Operand::Immediate(n.clone()),
            Operand::Register(r) => Operand::Register(*r),
        }
    }
}

/// The model of an operand that may be absent.
pub open spec fn operand_view(operand: Option<Operand>) -> Option<OperandView> {
    match operand {
        Some(o) => Some(o@),
        None => None,
    }
}

} // verus!
