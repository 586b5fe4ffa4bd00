//! Instructions: what a basic block holds.

use crate::compiler::cfg::operand::{operand_view, Operand, OperandView};
use crate::parser::ast::Operator;
use vstd::prelude::*;

verus! {

/// A binary operation: `dest = left op right`.
#[derive(Debug, PartialEq, Eq)]
pub struct BinOpStruct {
    /// The virtual register that receives the result.
    pub dest: usize,
    pub op: Operator,
    pub left: Operand,
    pub right: Operand,
}

/// A transfer of control to `target`, or, if `condition` is there and does
/// not hold, to `alt_target`.
#[derive(Debug, PartialEq, Eq)]
pub struct BranchStruct {
    pub condition: Option<Operand>,
    pub target: usize,
    pub alt_target: Option<usize>,
}

/// The return from a function.
#[derive(Debug, PartialEq, Eq)]
pub struct ReturnStruct {
    pub return_type: String,
    pub value: Option<Operand>,
}

/// An instruction.
#[derive(Debug, PartialEq, Eq)]
pub enum Instruction {
    BinOp(BinOpStruct),
    Branch(BranchStruct),
    Return(ReturnStruct),
}

/// The mathematical model of an [`Instruction`].
pub enum InstructionView {
    BinOp { dest: usize, op: Operator, left: OperandView, right: OperandView },
    Branch { condition: Option<OperandView>, target: usize, alt_target: Option<usize> },
    Return { return_type: Seq<char>, value: Option<OperandView> },
}

impl View for Instruction {
    type V = InstructionView;

    open spec fn view(&self) -> InstructionView {
        match *self {
            Instruction::BinOp(b) => InstructionView::BinOp {
                dest: b.dest,
                op: b.op,
                left: b.left@,
                right: b.right@,
            },
            Instruction::Branch(b) => InstructionView::Branch {
                condition: operand_view(b.condition),
                target: b.target,
                alt_target: b.alt_target,
            },
            Instruction::Return(r) => InstructionView::Return {
                return_type: r.return_type@,
                value: operand_view(r.value),
            },
        }
    }
}

impl InstructionView {
    /// Whether the instruction ends a block: a branch or a return.
    pub open spec fn is_terminator(self) -> bool {
        self is Branch || self is Return
    }
}

impl BranchStruct {
    /// A branch to `target`, or to `alt_target` where `condition` fails.
    pub fn new(condition: Option<Operand>, target: usize, alt_target: Option<usize>) -> (branch:
        BranchStruct)
        ensures
            branch.condition == condition,
            branch.target == target,
            branch.alt_target == alt_target,
    {
        BranchStruct { condition, target, alt_target }
    }
}

} // verus!
