//! The compiled form of a function body: a tree of blocks whose statements
//! and operand expressions are plain data.
use vstd::prelude::*;

use crate::error::TrapKind;
use crate::kernel::{BinOp, UnOp};
use crate::stack::StackValue;
use crate::value::FuncAddr;

verus! {

#[derive(Debug, Clone, Copy, PartialEq, Eq, Structural)]
pub enum BlockKind {
    Block,
    Loop,
    If,
    Else,
}

/// What a statement tells the block that runs it.
#[derive(Debug, Clone, Copy, PartialEq, Eq)]
pub enum Action {
    /// Leave the function, with its result if it has one.
    Return(Option<StackValue>),
    /// Go on with the next statement.
    End,
    /// Leave this many enclosing blocks and branch to the next one out.
    Branch(u32),
}

/// An operand as the translator tracks it: a local, a constant, or the
/// result of an operation that is evaluated when the operand is consumed.
#[derive(Debug, PartialEq, Eq)]
pub enum Input {
    Local(u32),
    Const(StackValue),
    Op(Box<Op>),
}

/// An operation that yields one cell.
#[derive(Debug, PartialEq, Eq)]
pub enum Op {
    Unary(UnOp, Input),
    Binary(BinOp, Input, Input),
    /// Yields the first operand if the third one is not zero, else the
    /// second one. All three are evaluated, in this order.
    Select(Input, Input, Input),
    /// Writes the operand to a local and yields it.
    Tee(u32, Input),
    /// Calls the function at an address of the function table. A function
    /// without a result yields zero.
    Call(FuncAddr, Args),
}

/// The arguments of a call, first parameter first.
#[derive(Debug, PartialEq, Eq)]
pub enum Args {
    Nil,
    Cons(Input, Box<Args>),
}

/// A statement of a block.
#[derive(Debug, PartialEq, Eq)]
pub enum Eval {
    /// A nested block or loop.
    Nested(Block),
    /// Runs the first block if the condition is not zero, else the second
    /// one if there is one.
    If(Input, Block, Option<Block>),
    SetLocal(u32, Input),
    /// Evaluates the operand and discards it.
    Drop(Input),
    Return(Option<Input>),
    Br(u32),
    /// Branches if the condition is not zero.
    BrIf(Input, u32),
    /// Branches to the depth that the index selects from the table, or to
    /// the default depth when the index is past the end of the table.
    BrTable(Input, Vec<u32>, u32),
    Trap(TrapKind),
}

#[derive(Debug, PartialEq, Eq)]
pub struct Block {
    pub kind: BlockKind,
    /// Number of blocks that enclose this one in its function.
    pub depth: u32,
    pub eval: Vec<Eval>,
}

/// What a statement is: the statement with its blocks taken by their views.
pub enum EvalView {
    Nested(BlockView),
    If(Input, BlockView, Option<BlockView>),
    SetLocal(u32, Input),
    Drop(Input),
    Return(Option<Input>),
    Br(u32),
    BrIf(Input, u32),
    BrTable(Input, Seq<u32>, u32),
    Trap(TrapKind),
}

/// What a block is: its kind, its depth and its statements in order.
pub struct BlockView {
    pub kind: BlockKind,
    pub depth: u32,
    pub eval: Seq<EvalView>,
}

/// What a statement is.
pub open spec fn eval_view(item: Eval) -> EvalView
    decreases item,
{
    match item {
        Eval::Nested(block) => EvalView::Nested(block_view(block)),
        Eval::If(cond, then_block, else_block) => EvalView::If(
            cond,
            block_view(then_block),
            match else_block {
                Some(block) => Some(block_view(block)),
                None => None,
            },
        ),
        Eval::SetLocal(idx, operand) => EvalView::SetLocal(idx, operand),
        Eval::Drop(operand) => EvalView::Drop(operand),
        Eval::Return(operand) => EvalView::Return(operand),
        Eval::Br(target) => EvalView::Br(target),
        Eval::BrIf(cond, target) => EvalView::BrIf(cond, target),
        Eval::BrTable(index, table, default) => EvalView::BrTable(index, table@, default),
        Eval::Trap(kind) => EvalView::Trap(kind),
    }
}

/// What a block is.
pub open spec fn block_view(block: Block) -> BlockView
    decreases block,
{
    BlockView {
        kind: block.kind,
        depth: block.depth,
        eval: Seq::new(
            block.eval@.len(),
            |i: int|
                if 0 <= i < block.eval@.len() {
                    eval_view(block.eval@[i])
                } else {
                    EvalView::Br(0)
                },
        ),
    }
}

impl View for Eval {
    type V = EvalView;

    open spec fn view(&self) -> EvalView {
        eval_view(*self)
    }
}

impl View for Block {
    type V = BlockView;

    open spec fn view(&self) -> BlockView {
        block_view(*self)
    }
}

impl Args {
    pub open spec fn len(self) -> nat
        decreases self,
    {
        match self {
            Args::Nil => 0,
            Args::Cons(_, rest) => 1 + rest.len(),
        }
    }
}

impl Block {
    pub fn new(kind: BlockKind, depth: u32) -> (b: Block)
        ensures
            b.kind == kind,
            b.depth == depth,
            b.eval@ == Seq::<Eval>::empty(),
            b@ == (BlockView { kind, depth, eval: Seq::empty() }),
    {
        let b = Block { kind, depth, eval: Vec::new() };
        assert(b@.eval =~= Seq::empty());
        b
    }

    pub fn depth(&self) -> (d: u32)
        ensures
            d == self.depth,
    {
        self.depth
    }

    /// Appends a statement.
    pub fn push(&mut self, f: Eval)
        ensures
            final(self).kind == old(self).kind,
            final(self).depth == old(self).depth,
            final(self).eval@ == old(self).eval@.push(f),
            final(self)@ == (BlockView { eval: old(self)@.eval.push(f@), ..old(self)@ }),
    {
        self.eval.push(f);
        assert(self@.eval =~= old(self)@.eval.push(f@));
    }
}

} // verus!
