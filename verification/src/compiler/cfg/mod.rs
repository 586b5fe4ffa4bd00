//! The control-flow graph of one function: basic blocks, the instructions
//! they hold and the edges between them.

pub mod inst;
pub mod operand;

use crate::compiler::cfg::inst::{Instruction, InstructionView};
use vstd::prelude::*;

verus! {

/// A straight-line sequence of instructions, with the blocks that control
/// may pass to from its end.
#[derive(Debug, PartialEq, Eq)]
pub struct BasicBlock {
    pub insts: Vec<Instruction>,
    /// The successors, each listed once.
    pub succs: Vec<usize>,
}

/// The mathematical model of a [`BasicBlock`].
#[verifier::ext_equal]
pub struct BlockView {
    pub insts: Seq<InstructionView>,
    pub succs: Set<usize>,
}

impl View for BasicBlock {
    type V = BlockView;

    open spec fn view(&self) -> BlockView {
        BlockView {
            insts: Seq::new(self.insts@.len(), |i: int| self.insts@[i]@),
            succs: self.succs@.to_set(),
        }
    }
}

/// The graph of one function. A block is known by its index in `blocks`.
#[derive(Debug, PartialEq, Eq)]
pub struct CFG {
    pub blocks: Vec<BasicBlock>,
    /// The block at which the function is entered.
    pub entry_block: usize,
    /// The block from which the function returns.
    pub exit_block: usize,
    /// For each virtual register, the block that holds the instruction
    /// which defines it.
    pub registers: Vec<usize>,
}

/// The mathematical model of a [`CFG`].
#[verifier::ext_equal]
pub struct CfgView {
    pub blocks: Seq<BlockView>,
    pub entry: usize,
    pub exit: usize,
    pub registers: Seq<usize>,
}

impl View for CFG {
    type V = CfgView;

    open spec fn view(&self) -> CfgView {
        CfgView {
            blocks: Seq::new(self.blocks@.len(), |i: int| self.blocks@[i]@),
            entry: self.entry_block,
            exit: self.exit_block,
            registers: self.registers@,
        }
    }
}

impl CfgView {
    /// The graph of an empty function: an entry block and an exit block,
    /// both empty and without edges.
    pub open spec fn empty() -> CfgView {
        CfgView {
            blocks: seq![
                BlockView { insts: Seq::empty(), succs: Set::empty() },
                BlockView { insts: Seq::empty(), succs: Set::empty() },
            ],
            entry: 0,
            exit: 1,
            registers: Seq::empty(),
        }
    }

    /// The entry and the exit are two blocks of the graph, every edge leads
    /// to a block of the graph, and every register is defined in one.
    pub open spec fn wf(self) -> bool {
        &&& self.entry < self.blocks.len()
        &&& self.exit < self.blocks.len()
        &&& self.entry != self.exit
        &&& forall|b: int, to: usize|
            0 <= b < self.blocks.len() && #[trigger] self.blocks[b].succs.contains(to) ==> to
                < self.blocks.len()
        &&& forall|r: int|
            0 <= r < self.registers.len() ==> #[trigger] self.registers[r] < self.blocks.len()
    }

    /// The graph with one more block, empty and without edges.
    pub open spec fn add_block(self) -> CfgView {
        CfgView {
            blocks: self.blocks.push(BlockView { insts: Seq::empty(), succs: Set::empty() }),
            ..self
        }
    }

    /// The graph with `insts` added at the end of block `block`.
    pub open spec fn add_insts(self, block: int, insts: Seq<InstructionView>) -> CfgView {
        CfgView {
            blocks: self.blocks.update(
                block,
                BlockView { insts: self.blocks[block].insts + insts, ..self.blocks[block] },
            ),
            ..self
        }
    }

    /// The graph with `inst` added at the end of block `block`.
    pub open spec fn add_inst(self, block: int, inst: InstructionView) -> CfgView {
        self.add_insts(block, seq![inst])
    }

    /// The graph with an edge from block `from` to block `to`.
    pub open spec fn connect(self, from: int, to: usize) -> CfgView {
        CfgView {
            blocks: self.blocks.update(
                from,
                BlockView { succs: self.blocks[from].succs.insert(to), ..self.blocks[from] },
            ),
            ..self
        }
    }

    /// The graph with `count` more registers, each defined in block `block`.
    pub open spec fn add_registers(self, block: usize, count: nat) -> CfgView {
        CfgView { registers: self.registers + Seq::new(count, |i: int| block), ..self }
    }

    /// The graph after `insts` were emitted into block `block`, each of them
    /// defining a register of its own.
    pub open spec fn emit(self, block: usize, insts: Seq<InstructionView>) -> CfgView {
        self.add_insts(block as int, insts).add_registers(block, insts.len())
    }

    /// Whether control can pass from block `from` to block `to` directly.
    pub open spec fn has_edge(self, from: int, to: usize) -> bool {
        0 <= from < self.blocks.len() && self.blocks[from].succs.contains(to)
    }

    /// Whether the last instruction of block `block` ends the block.
    pub open spec fn is_terminated(self, block: int) -> bool {
        self.blocks[block].insts.len() > 0 && self.blocks[block].insts.last().is_terminator()
    }

    /// Whether control can pass on from block `block`.
    pub open spec fn has_successor(self, block: int) -> bool {
        exists|to: usize| self.has_edge(block, to)
    }

    /// Whether the graph is complete: every block ends with a transfer of
    /// control, the exit block with a return, and each block but the exit
    /// block has a successor.
    pub open spec fn is_complete(self) -> bool {
        &&& forall|b: int| 0 <= b < self.blocks.len() ==> #[trigger] self.is_terminated(b)
        &&& self.blocks[self.exit as int].insts.last() is Return
        &&& forall|b: int|
            0 <= b < self.blocks.len() && b != self.exit ==> #[trigger] self.has_successor(b)
    }
}

/// Emitting nothing changes nothing.
pub proof fn lemma_emit_nothing(graph: CfgView, block: usize)
    requires
        block < graph.blocks.len(),
    ensures
        graph.emit(block, Seq::empty()) == graph,
{
    assert(graph.emit(block, Seq::empty()) =~~= graph);
}

/// Emitting `first` and then `next` is emitting `first + next`.
pub proof fn lemma_emit_concat(
    graph: CfgView,
    block: usize,
    first: Seq<InstructionView>,
    next: Seq<InstructionView>,
)
    requires
        block < graph.blocks.len(),
    ensures
        graph.emit(block, first).emit(block, next) == graph.emit(block, first + next),
{
    assert(graph.emit(block, first).emit(block, next) =~~= graph.emit(block, first + next));
}

impl CFG {
    /// Whether the graph is well formed: see [`CfgView::wf`].
    pub open spec fn wf(&self) -> bool {
        self@.wf()
    }

    /// The graph of an empty function: an entry block and an exit block.
    pub fn new() -> (cfg: CFG)
        ensures
            cfg.wf(),
            cfg@ == CfgView::empty(),
    {
        let mut blocks = Vec::new();
        blocks.push(BasicBlock { insts: Vec::new(), succs: Vec::new() });
        blocks.push(BasicBlock { insts: Vec::new(), succs: Vec::new() });
        let cfg = CFG { blocks, entry_block: 0, exit_block: 1, registers: Vec::new() };
        proof {
            assert(cfg.blocks@[0]@.insts =~= Seq::empty());
            assert(cfg.blocks@[1]@.insts =~= Seq::empty());
            assert(cfg.blocks@[0]@.succs =~= Set::empty());
            assert(cfg.blocks@[1]@.succs =~= Set::empty());
            assert(cfg@.blocks =~= CfgView::empty().blocks);
        }
        cfg
    }

    /// Adds an empty block and returns its index.
    pub fn add_block(&mut self) -> (block: usize)
        requires
            old(self).wf(),
        ensures
            final(self).wf(),
            block == old(self)@.blocks.len(),
            final(self)@ == old(self)@.add_block(),
    {
        let block = self.blocks.len();
        self.blocks.push(BasicBlock { insts: Vec::new(), succs: Vec::new() });
        proof {
            assert(self.blocks@[block as int]@.insts =~= Seq::empty());
            assert(self.blocks@[block as int]@.succs =~= Set::empty());
            assert(self@.blocks =~= old(self)@.add_block().blocks);
        }
        block
    }

    /// Adds `inst` at the end of block `block`.
    pub fn add_inst(&mut self, block: usize, inst: Instruction)
        requires
            old(self).wf(),
            block < old(self)@.blocks.len(),
        ensures
            final(self).wf(),
            final(self)@ == old(self)@.add_inst(block as int, inst@),
    {
        self.blocks[block].insts.push(inst);
        proof {
            assert(self.blocks@[block as int]@.insts =~= old(self)@.blocks[block as int].insts
                + seq![inst@]);
            assert(self@.blocks =~= old(self)@.add_inst(block as int, inst@).blocks);
        }
    }

    /// Adds an edge from block `from` to block `to`, unless it is there.
    pub fn connect_blocks(&mut self, from: usize, to: usize)
        requires
            old(self).wf(),
            from < old(self)@.blocks.len(),
            to < old(self)@.blocks.len(),
        ensures
            final(self).wf(),
            final(self)@ == old(self)@.connect(from as int, to),
    {
        let mut found = false;
        let mut i: usize = 0;
        while i < self.blocks[from].succs.len()
            invariant
                *self == *old(self),
                from < self.blocks@.len(),
                i <= self.blocks@[from as int].succs@.len(),
                found <==> exists|j: int|
                    0 <= j < i && self.blocks@[from as int].succs@[j] == to,
            decreases self.blocks@[from as int].succs@.len() - i,
        {
            if self.blocks[from].succs[i] == to {
                found = true;
            }
            i += 1;
        }
        if !found {
            self.blocks[from].succs.push(to);
        }
        proof {
            let before = old(self).blocks@[from as int].succs@;
            let after = self.blocks@[from as int].succs@;
            assert forall|s: usize| after.contains(s) <==> before.contains(s) || s == to by {
                if found {
                    let j = choose|j: int| 0 <= j < before.len() && before[j] == to;
                    assert(before[j] == to);
                } else {
                    assert(after =~= before.push(to));
                    if before.contains(s) {
                        let j = choose|j: int| 0 <= j < before.len() && before[j] == s;
                        assert(after[j] == s);
                    }
                    if s == to {
                        assert(after[before.len() as int] == s);
                    }
                }
            }
            assert(self.blocks@[from as int]@.succs =~= old(self)@.blocks[from as int].succs.insert(
                to,
            ));
            assert(self.blocks@[from as int]@.insts =~= old(self)@.blocks[from as int].insts);
            assert(self@.blocks =~= old(self)@.connect(from as int, to).blocks);
        }
    }

    /// Makes a new virtual register, defined in block `block`, and returns it.
    pub fn new_register(&mut self, block: usize) -> (register: usize)
        requires
            old(self).wf(),
            block < old(self)@.blocks.len(),
        ensures
            final(self).wf(),
            register == old(self)@.registers.len(),
            final(self)@ == old(self)@.add_registers(block, 1),
    {
        let register = self.registers.len();
        self.registers.push(block);
        proof {
            assert(self@.registers =~= old(self)@.add_registers(block, 1).registers);
            assert(self@.blocks =~= old(self)@.blocks);
        }
        register
    }
}

} // verus!
