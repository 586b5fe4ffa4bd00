//! Scope resolution and control-flow graph construction.
//!
//! A module is lowered into a [`Program`]: its top-level statements become
//! the function `main`, whose graph has one straight-line block between the
//! entry and the exit.

pub mod cfg;
pub mod errors;
pub mod function;
pub mod lower;
pub mod names;
pub mod pattern;
pub mod program;
pub mod scope;
pub mod util;

use self::cfg::inst::{BranchStruct, Instruction, InstructionView, ReturnStruct};
use self::cfg::operand::{Operand, OperandView};
use self::cfg::{lemma_emit_concat, lemma_emit_nothing, CfgView, CFG};
use self::errors::{CompilerError, CompilerErrorView, Construct};
use self::function::Function;
use self::lower::{lemma_main_reaches_exit, lower_expr, lower_stmt, lower_stmts, lower_top_level,
    main_function, void_return};
use self::program::Program;
use crate::parser::ast::{Ast, Expression, Statement};
use vstd::prelude::*;
use vstd::string::StringExecFns;

verus! {

/// The statements of a module.
pub open spec fn module_body(ast: Ast) -> Seq<Statement> {
    match ast {
        Ast::Module { body } => body@,
    }
}

/// Whether one of the first `n` of `body` defines a function.
pub open spec fn defines_function(body: Seq<Statement>, n: nat) -> bool {
    exists|i: int| 0 <= i < n && i < body.len() && #[trigger] body[i] is FunctionDef
}

/// The construct that stops the compilation of a module, if one does: a
/// function definition at the top level, or else what stops the lowering of
/// the top level.
pub open spec fn compile_failure(body: Seq<Statement>) -> Option<Construct> {
    if defines_function(body, body.len()) {
        Some(Construct::FunctionDef)
    } else {
        lower_top_level(body, body.len()).failure
    }
}

/// Whether the result of lowering an expression is `value`.
pub open spec fn lowered_as(r: Result<Operand, CompilerError>, value: Result<
    OperandView,
    Construct,
>) -> bool {
    match r {
        Ok(operand) => value == Ok::<OperandView, Construct>(operand@),
        Err(e) => value matches Err(c) && e@ == CompilerErrorView::Unsupported(c),
    }
}

/// Whether the result of lowering statements into block `cur_block` agrees
/// with `failure`: the block to go on with, or the construct that stopped
/// the lowering.
pub open spec fn emitted_as(
    r: Result<usize, CompilerError>,
    cur_block: usize,
    failure: Option<Construct>,
) -> bool {
    match r {
        Ok(block) => failure is None && block == cur_block,
        Err(e) => failure matches Some(c) && e@ == CompilerErrorView::Unsupported(c),
    }
}

/// Compiles a module into a program: `main`, which holds the statements of
/// the top level, is its first and only function.
///
/// Fails on a function definition at the top level, and on the first
/// statement or expression that cannot be lowered.
pub fn compile(ast: Ast) -> (r: Result<Program, CompilerError>)
    ensures
        match r {
            Ok(program) => {
                let body = module_body(ast);
                &&& compile_failure(body) is None
                &&& program@ == seq![main_function(lower_top_level(body, body.len()).insts)]
            },
            Err(e) => compile_failure(module_body(ast)) matches Some(c) && e@
                == CompilerErrorView::Unsupported(c),
        },
{
    let mut funcs = gather_funcs(&ast)?;
    let main = gather_main(&ast)?;
    funcs.insert(0, main);
    let program = Program { funcs };
    proof {
        let body = module_body(ast);
        assert(program@ =~= seq![main_function(lower_top_level(body, body.len()).insts)]);
    }
    Ok(program)
}

/// Gathers the functions that a module defines. None can be lowered yet:
/// the result is empty.
///
/// Fails on a function definition at the top level.
#[verifier::loop_isolation(false)]
pub fn gather_funcs(ast: &Ast) -> (r: Result<Vec<Function>, CompilerError>)
    ensures
        match r {
            Ok(functions) => functions@.len() == 0 && !defines_function(
                module_body(*ast),
                module_body(*ast).len(),
            ),
            Err(e) => defines_function(module_body(*ast), module_body(*ast).len()) && e@
                == CompilerErrorView::Unsupported(Construct::FunctionDef),
        },
{
    let body = match ast {
        Ast::Module { body } => body,
    };
    let functions = Vec::new();
    let mut n: usize = 0;
    while n < body.len()
        invariant
            n <= body.len(),
            !defines_function(body@, n as nat),
        decreases body.len() - n,
    {
        match &body[n] {
            Statement::FunctionDef { .. } => {
                assert(body@[n as int] is FunctionDef);
                return Err(CompilerError::Unsupported(Construct::FunctionDef));
            },
            _ => (),
        }
        n += 1;
    }
    Ok(functions)
}

/// Builds `main`, the function of the top level: every statement of the
/// module but the definitions is lowered into the entry block, which then
/// jumps to the exit block; the exit block returns nothing.
///
/// Fails on the first statement or expression that cannot be lowered.
#[verifier::loop_isolation(false)]
pub fn gather_main(ast: &Ast) -> (r: Result<Function, CompilerError>)
    ensures
        match r {
            Ok(main) => {
                let body = module_body(*ast);
                &&& lower_top_level(body, body.len()).failure is None
                &&& main@ == main_function(lower_top_level(body, body.len()).insts)
                &&& main.graph.wf()
                &&& main@.graph.is_complete()
                &&& main@.graph.blocks[main@.graph.exit as int].insts.last() == void_return()
                &&& main@.graph.has_edge(main@.graph.entry as int, main@.graph.exit)
            },
            Err(e) => lower_top_level(module_body(*ast), module_body(*ast).len()).failure
                matches Some(c) && e@ == CompilerErrorView::Unsupported(c),
        },
{
    let body = match ast {
        Ast::Module { body } => body,
    };
    let mut cfg = CFG::new();
    let mut cur_block = cfg.entry_block;
    let mut n: usize = 0;
    proof {
        lemma_emit_nothing(CfgView::empty(), 0);
    }
    while n < body.len()
        invariant
            n <= body.len(),
            cfg.wf(),
            cur_block == 0,
            lower_top_level(body@, n as nat).failure is None,
            cfg@ == CfgView::empty().emit(0, lower_top_level(body@, n as nat).insts),
        decreases body.len() - n,
    {
        let stmt = &body[n];
        match stmt {
            Statement::FunctionDef { .. } | Statement::ClassDef { .. } => (),
            _ => {
                let ghost first = lower_top_level(body@, n as nat);
                let step = compile_stmt(&mut cfg, cur_block, stmt);
                proof {
                    lemma_emit_concat(
                        CfgView::empty(),
                        0,
                        first.insts,
                        lower_stmt(*stmt, first.insts.len()).insts,
                    );
                    if step is Err {
                        lemma_top_level_failure_stays(body@, (n + 1) as nat, body@.len());
                    }
                }
                cur_block = step?;
            },
        }
        n += 1;
    }
    let exit_block = cfg.exit_block;
    if cur_block != exit_block {
        cfg.connect_blocks(cur_block, exit_block);
        cfg.add_inst(cur_block, Instruction::Branch(BranchStruct::new(None, exit_block, None)));
    }
    // Add the void return to the exit block
    cfg.add_inst(
        exit_block,
        Instruction::Return(ReturnStruct { return_type: String::from_str("void"), value: None }),
    );
    let main = Function {
        name: String::from_str("main"),
        return_type: String::from_str("void"),
        graph: cfg,
    };
    proof {
        let insts = lower_top_level(body@, body@.len()).insts;
        assert(main@ =~~= main_function(insts));
        lemma_main_reaches_exit(insts);
    }
    Ok(main)
}

/// What stopped the lowering of the first `k` statements of a top level
/// stops that of the first `n`, for `n` from `k` on.
pub proof fn lemma_top_level_failure_stays(body: Seq<Statement>, k: nat, n: nat)
    requires
        k <= n <= body.len(),
        lower_top_level(body, k).failure is Some,
    ensures
        lower_top_level(body, n) == lower_top_level(body, k),
    decreases n,
{
    if k < n {
        lemma_top_level_failure_stays(body, k, (n - 1) as nat);
    }
}

/// What stopped the lowering of the first `k` statements stops that of the
/// first `n`, for `n` from `k` on.
pub proof fn lemma_stmts_failure_stays(stmts: Seq<Statement>, k: nat, n: nat, base: nat)
    requires
        k <= n <= stmts.len(),
        lower_stmts(stmts, k, base).failure is Some,
    ensures
        lower_stmts(stmts, n, base) == lower_stmts(stmts, k, base),
    decreases n,
{
    if k < n {
        lemma_stmts_failure_stays(stmts, k, (n - 1) as nat, base);
    }
}

/// Lowers `stmts` one after the other into block `cur_block`, and returns
/// the block in which lowering goes on behind them.
///
/// Stops at the first statement that cannot be lowered.
#[verifier::loop_isolation(false)]
pub fn compile_stmts(cfg: &mut CFG, cur_block: usize, stmts: &Vec<Statement>) -> (r: Result<
    usize,
    CompilerError,
>)
    requires
        old(cfg).wf(),
        cur_block < old(cfg)@.blocks.len(),
    ensures
        final(cfg).wf(),
        ({
            let low = lower_stmts(stmts@, stmts@.len(), old(cfg)@.registers.len());
            &&& final(cfg)@ == old(cfg)@.emit(cur_block, low.insts)
            &&& emitted_as(r, cur_block, low.failure)
        }),
{
    let ghost start = cfg@;
    let ghost base = cfg@.registers.len();
    let mut block = cur_block;
    let mut n: usize = 0;
    proof {
        lemma_emit_nothing(start, cur_block);
    }
    while n < stmts.len()
        invariant
            n <= stmts.len(),
            cfg.wf(),
            start.wf(),
            base == start.registers.len(),
            block == cur_block,
            cur_block < start.blocks.len(),
            lower_stmts(stmts@, n as nat, base).failure is None,
            cfg@ == start.emit(cur_block, lower_stmts(stmts@, n as nat, base).insts),
        decreases stmts.len() - n,
    {
        let ghost first = lower_stmts(stmts@, n as nat, base);
        let step = compile_stmt(cfg, block, &stmts[n]);
        proof {
            lemma_emit_concat(
                start,
                cur_block,
                first.insts,
                lower_stmt(stmts@[n as int], base + first.insts.len()).insts,
            );
            if step is Err {
                lemma_stmts_failure_stays(stmts@, (n + 1) as nat, stmts@.len(), base);
            }
        }
        block = step?;
        n += 1;
    }
    Ok(block)
}

/// Lowers the statement `stmt` into block `cur_block`, and returns the
/// block in which lowering goes on behind it.
///
/// Only an expression statement is lowered; any other statement fails.
pub fn compile_stmt(cfg: &mut CFG, cur_block: usize, stmt: &Statement) -> (r: Result<
    usize,
    CompilerError,
>)
    requires
        old(cfg).wf(),
        cur_block < old(cfg)@.blocks.len(),
    ensures
        final(cfg).wf(),
        ({
            let low = lower_stmt(*stmt, old(cfg)@.registers.len());
            &&& final(cfg)@ == old(cfg)@.emit(cur_block, low.insts)
            &&& emitted_as(r, cur_block, low.failure)
        }),
{
    match stmt {
        Statement::Expr { .. } => compile_stmt_expr(cfg, cur_block, stmt),
        _ => {
            proof {
                lemma_emit_nothing(cfg@, cur_block);
            }
            Err(CompilerError::Unsupported(Construct::Statement))
        },
    }
}

/// Lowers the expression statement `stmt` into block `cur_block`: the
/// expression is lowered and its value dropped. The block stays the same.
///
/// Fails on a statement of another kind, and where the expression cannot be
/// lowered.
pub fn compile_stmt_expr(cfg: &mut CFG, cur_block: usize, stmt: &Statement) -> (r: Result<
    usize,
    CompilerError,
>)
    requires
        old(cfg).wf(),
        cur_block < old(cfg)@.blocks.len(),
    ensures
        final(cfg).wf(),
        ({
            let low = lower_stmt(*stmt, old(cfg)@.registers.len());
            &&& final(cfg)@ == old(cfg)@.emit(cur_block, low.insts)
            &&& emitted_as(r, cur_block, low.failure)
        }),
{
    let expr = match stmt {
        Statement::Expr { value } => value,
        _ => {
            proof {
                lemma_emit_nothing(cfg@, cur_block);
            }
            return Err(CompilerError::Unsupported(Construct::Statement));
        },
    };
    let _reg = compile_expr(cfg, cur_block, expr)?;
    Ok(cur_block)
}

/// Lowers the expression `expr` into block `cur_block`, and returns the
/// operand that holds its value.
///
/// Numeric literals and binary operations are lowered; any other expression
/// fails.
pub fn compile_expr(cfg: &mut CFG, cur_block: usize, expr: &Expression) -> (r: Result<
    Operand,
    CompilerError,
>)
    requires
        old(cfg).wf(),
        cur_block < old(cfg)@.blocks.len(),
    ensures
        final(cfg).wf(),
        ({
            let low = lower_expr(*expr, old(cfg)@.registers.len());
            &&& final(cfg)@ == old(cfg)@.emit(cur_block, low.insts)
            &&& lowered_as(r, low.value)
        }),
    decreases *expr, 1nat,
{
    proof {
        lemma_emit_nothing(cfg@, cur_block);
    }
    match expr {
        Expression::BinOp { .. } => compile_expr_binop(cfg, cur_block, expr),
        Expression::Num { n } => Ok(util::gen_imm_num(cfg, cur_block, n)),
        _ => Err(CompilerError::Unsupported(Construct::Expression)),
    }
}

/// Lowers the binary operation `expr` into block `cur_block`: first the
/// left operand, then the right operand, then the operation on the two,
/// whose result goes to a new register. Returns that register.
pub fn compile_expr_binop(cfg: &mut CFG, cur_block: usize, expr: &Expression) -> (r: Result<
    Operand,
    CompilerError,
>)
    requires
        old(cfg).wf(),
        cur_block < old(cfg)@.blocks.len(),
        *expr is BinOp,
    ensures
        final(cfg).wf(),
        ({
            let low = lower_expr(*expr, old(cfg)@.registers.len());
            &&& final(cfg)@ == old(cfg)@.emit(cur_block, low.insts)
            &&& lowered_as(r, low.value)
        }),
    decreases *expr, 0nat,
{
    let ghost start = cfg@;
    let ghost base = cfg@.registers.len();
    let (left, op, right) = match expr {
        Expression::BinOp { left, op, right } => (left, op, right),
        _ => {
            return Err(CompilerError::Unsupported(Construct::Expression));
        },
    };
    let ghost lhs = lower_expr(**left, base);
    let ghost rhs = lower_expr(**right, base + lhs.insts.len());
    let lft_oper = compile_expr(cfg, cur_block, left)?;
    let step = compile_expr(cfg, cur_block, right);
    proof {
        lemma_emit_concat(start, cur_block, lhs.insts, rhs.insts);
    }
    let rht_oper = step?;
    let ghost inst = InstructionView::BinOp {
        dest: cfg@.registers.len() as usize,
        op: *op,
        left: lft_oper@,
        right: rht_oper@,
    };
    let operand = util::gen_bin_inst(cfg, cur_block, op, lft_oper, rht_oper);
    proof {
        lemma_emit_concat(start, cur_block, lhs.insts + rhs.insts, seq![inst]);
    }
    Ok(operand)
}

} // verus!
