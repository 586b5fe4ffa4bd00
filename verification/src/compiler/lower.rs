//! What lowering emits: the instructions that statements and expressions
//! are reduced to, and the operand that holds the value of an expression.
//!
//! Lowering stops at the first construct it cannot handle. What it emitted
//! before stays emitted.

use crate::compiler::cfg::inst::InstructionView;
use crate::compiler::cfg::operand::OperandView;
use crate::compiler::cfg::{BlockView, CfgView};
use crate::compiler::errors::Construct;
use crate::compiler::function::FunctionView;
use crate::parser::ast::{Expression, Statement};
use vstd::prelude::*;

verus! {

/// What lowering an expression gives.
pub struct Lowered {
    /// The instructions emitted, in their order.
    pub insts: Seq<InstructionView>,
    /// The operand that holds the value, or the construct that stopped the
    /// lowering.
    pub value: Result<OperandView, Construct>,
}

/// What lowering statements gives.
pub struct Emitted {
    /// The instructions emitted, in their order.
    pub insts: Seq<InstructionView>,
    /// The construct that stopped the lowering, if one did.
    pub failure: Option<Construct>,
}

/// The lowering of an expression, where `base` registers are in use.
///
/// A numeric literal is an immediate operand and emits nothing. A binary
/// operation emits what its left operand emits, then what its right operand
/// emits, then one instruction that combines the two into a new register.
/// Each instruction emitted defines the next free register.
pub open spec fn lower_expr(expr: Expression, base: nat) -> Lowered
    decreases expr,
{
    match expr {
        Expression::Num { n } => Lowered {
            insts: Seq::empty(),
            value: Ok(OperandView::Immediate(n@)),
        },
        Expression::BinOp { left, op, right } => {
            let lhs = lower_expr(*left, base);
            match lhs.value {
                Err(_) => lhs,
                Ok(lft_oper) => {
                    let rhs = lower_expr(*right, base + lhs.insts.len());
                    match rhs.value {
                        Err(c) => Lowered { insts: lhs.insts + rhs.insts, value: Err(c) },
                        Ok(rht_oper) => {
                            let dest = (base + lhs.insts.len() + rhs.insts.len()) as usize;
                            Lowered {
                                insts: lhs.insts + rhs.insts + seq![
                                    InstructionView::BinOp {
                                        dest,
                                        op,
                                        left: lft_oper,
                                        right: rht_oper,
                                    },
                                ],
                                value: Ok(OperandView::Register(dest)),
                            }
                        },
                    }
                },
            }
        },
        _ => Lowered { insts: Seq::empty(), value: Err(Construct::Expression) },
    }
}

/// The lowering of a statement, where `base` registers are in use: an
/// expression statement emits what its expression emits, and the value is
/// dropped. No other statement is lowered.
pub open spec fn lower_stmt(stmt: Statement, base: nat) -> Emitted {
    match stmt {
        Statement::Expr { value } => {
            let low = lower_expr(value, base);
            Emitted {
                insts: low.insts,
                failure: match low.value {
                    Ok(_) => None,
                    Err(c) => Some(c),
                },
            }
        },
        _ => Emitted { insts: Seq::empty(), failure: Some(Construct::Statement) },
    }
}

/// `first`, and then what `next` emits, unless `first` failed.
pub open spec fn then_emit(first: Emitted, next: Emitted) -> Emitted {
    if first.failure is Some {
        first
    } else {
        Emitted { insts: first.insts + next.insts, failure: next.failure }
    }
}

/// The lowering of the first `n` of `stmts`, one after the other, where
/// `base` registers are in use.
pub open spec fn lower_stmts(stmts: Seq<Statement>, n: nat, base: nat) -> Emitted
    decreases n,
{
    if 0 < n <= stmts.len() {
        let first = lower_stmts(stmts, (n - 1) as nat, base);
        then_emit(first, lower_stmt(stmts[n - 1], base + first.insts.len()))
    } else {
        Emitted { insts: Seq::empty(), failure: None }
    }
}

/// Whether a statement defines a function or a class.
pub open spec fn is_definition(stmt: Statement) -> bool {
    stmt is FunctionDef || stmt is ClassDef
}

/// The lowering of the first `n` statements of a module's top level into
/// `main`: definitions are passed over, every other statement is lowered.
pub open spec fn lower_top_level(body: Seq<Statement>, n: nat) -> Emitted
    decreases n,
{
    if 0 < n <= body.len() {
        let first = lower_top_level(body, (n - 1) as nat);
        if is_definition(body[n - 1]) {
            first
        } else {
            then_emit(first, lower_stmt(body[n - 1], first.insts.len()))
        }
    } else {
        Emitted { insts: Seq::empty(), failure: None }
    }
}

/// The name of the function that holds a module's top level.
pub open spec fn main_name() -> Seq<char> {
    "main"@
}

/// The name of the type of a function that returns nothing.
pub open spec fn void_type() -> Seq<char> {
    "void"@
}

/// The return that ends a function without a value.
pub open spec fn void_return() -> InstructionView {
    InstructionView::Return { return_type: void_type(), value: None }
}

/// The branch that always goes to `target`.
pub open spec fn jump(target: usize) -> InstructionView {
    InstructionView::Branch { condition: None, target, alt_target: None }
}

/// The function `main` whose top level emitted `insts`: the entry block
/// holds `insts` and a jump to the exit block, the exit block the return.
pub open spec fn main_function(insts: Seq<InstructionView>) -> FunctionView {
    FunctionView {
        name: main_name(),
        return_type: void_type(),
        graph: CfgView {
            blocks: seq![
                BlockView { insts: insts.push(jump(1)), succs: set![1usize] },
                BlockView { insts: seq![void_return()], succs: Set::empty() },
            ],
            entry: 0,
            exit: 1,
            registers: Seq::new(insts.len(), |i: int| 0usize),
        },
    }
}

/// Whether an expression is built from numeric literals and binary
/// operations alone.
pub open spec fn is_arithmetic(expr: Expression) -> bool
    decreases expr,
{
    match expr {
        Expression::Num { .. } => true,
        Expression::BinOp { left, right, .. } => is_arithmetic(*left) && is_arithmetic(*right),
        _ => false,
    }
}

/// Whether a statement is an expression statement over an arithmetic
/// expression.
pub open spec fn is_arithmetic_stmt(stmt: Statement) -> bool {
    stmt matches Statement::Expr { value } && is_arithmetic(value)
}

/// An arithmetic expression is lowered to the end: it has a value.
pub proof fn lemma_arithmetic_lowers(expr: Expression, base: nat)
    requires
        is_arithmetic(expr),
    ensures
        lower_expr(expr, base).value is Ok,
    decreases expr,
{
    match expr {
        Expression::BinOp { left, op, right } => {
            lemma_arithmetic_lowers(*left, base);
            lemma_arithmetic_lowers(*right, base + lower_expr(*left, base).insts.len());
        },
        _ => {},
    }
}

/// Evaluation order: a binary operation is lowered left operand first. What
/// the left operand emits stands in front; where it is lowered to the end,
/// what the right operand emits follows at once, numbered behind it; and
/// where that is lowered to the end too, the operation itself comes last.
pub proof fn lemma_left_before_right(expr: Expression, base: nat)
    requires
        expr is BinOp,
    ensures
        ({
            let (left, right) = match expr {
                Expression::BinOp { left, right, .. } => (*left, *right),
                _ => arbitrary(),
            };
            let whole = lower_expr(expr, base);
            let lhs = lower_expr(left, base);
            let rhs = lower_expr(right, base + lhs.insts.len());
            &&& lhs.insts.is_prefix_of(whole.insts)
            &&& lhs.value is Err ==> whole == lhs
            &&& lhs.value is Ok ==> (lhs.insts + rhs.insts).is_prefix_of(whole.insts)
            &&& lhs.value is Ok && rhs.value is Ok ==> {
                &&& whole.insts.len() == lhs.insts.len() + rhs.insts.len() + 1
                &&& whole.insts.last() matches InstructionView::BinOp { left: l, right: r, .. }
                &&& Ok::<OperandView, Construct>(l) == lhs.value
                &&& Ok::<OperandView, Construct>(r) == rhs.value
            }
        }),
{
    let (left, right) = match expr {
        Expression::BinOp { left, right, .. } => (*left, *right),
        _ => arbitrary(),
    };
    let whole = lower_expr(expr, base);
    let lhs = lower_expr(left, base);
    let rhs = lower_expr(right, base + lhs.insts.len());
    if lhs.value is Ok {
        if rhs.value is Ok {
            assert(whole.insts =~= (lhs.insts + rhs.insts).push(whole.insts.last()));
        }
        assert((lhs.insts + rhs.insts).is_prefix_of(whole.insts));
    }
}

/// A list of arithmetic expression statements is lowered to the end.
pub proof fn lemma_arithmetic_top_level(body: Seq<Statement>, n: nat)
    requires
        n <= body.len(),
        forall|i: int| 0 <= i < n ==> is_arithmetic_stmt(#[trigger] body[i]),
    ensures
        lower_top_level(body, n).failure is None,
        lower_top_level(body, n) == lower_stmts(body, n, 0),
    decreases n,
{
    if n > 0 {
        lemma_arithmetic_top_level(body, (n - 1) as nat);
        let first = lower_top_level(body, (n - 1) as nat);
        assert(is_arithmetic_stmt(body[n - 1]));
        match body[n - 1] {
            Statement::Expr { value } => {
                lemma_arithmetic_lowers(value, first.insts.len());
            },
            _ => {},
        }
    }
}

/// In the graph of `main` the exit block ends with the return of nothing,
/// control passes from the entry block to the exit block directly, and the
/// graph is well formed and complete.
pub proof fn lemma_main_reaches_exit(insts: Seq<InstructionView>)
    ensures
        ({
            let graph = main_function(insts).graph;
            &&& graph.wf()
            &&& graph.is_complete()
            &&& graph.blocks[graph.exit as int].insts.last() == void_return()
            &&& graph.has_edge(graph.entry as int, graph.exit)
            &&& graph.blocks[graph.entry as int].insts.last() == jump(graph.exit)
        }),
{
    let graph = main_function(insts).graph;
    assert(graph.has_edge(0, 1));
    assert(graph.has_successor(0));
    assert(graph.is_terminated(0));
    assert(graph.is_terminated(1));
}

/// A module of arithmetic expression statements alone is lowered to a
/// `main` whose exit block ends with the return of nothing and whose entry
/// block is connected to the exit block.
pub proof fn lemma_arithmetic_main(body: Seq<Statement>)
    requires
        forall|i: int| 0 <= i < body.len() ==> is_arithmetic_stmt(#[trigger] body[i]),
    ensures
        lower_top_level(body, body.len()).failure is None,
        ({
            let graph = main_function(lower_top_level(body, body.len()).insts).graph;
            &&& graph.blocks[graph.exit as int].insts.last() == void_return()
            &&& graph.has_edge(graph.entry as int, graph.exit)
        }),
{
    lemma_arithmetic_top_level(body, body.len());
    lemma_main_reaches_exit(lower_top_level(body, body.len()).insts);
}

} // verus!
