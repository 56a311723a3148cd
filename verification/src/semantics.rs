//! What a compiled function computes.
//!
//! The meaning of a block tree is given over the locals of one activation,
//! a plain sequence in which local 0 is a slot like any other. A call hands
//! the callee its arguments and nothing else, so a callee neither sees nor
//! changes the locals of its caller. Two budgets make every run finite:
//! `depth` bounds how deep calls, blocks and operand expressions may nest,
//! and each activation of a loop may restart `LOOP_ROUNDS` times. Running
//! out of either is a stack overflow, as is running out of cells.
use vstd::prelude::*;

use crate::error::{Trap, TrapKind};
use crate::function::{Function, FunctionBody};
use crate::kernel::{binary_spec, unary_spec};
use crate::stack::{zero_cells, StackValue};
use crate::tree::{Action, Args, Block, BlockKind, Eval, Input, Op};

verus! {

/// How often one activation of a loop may branch back to its head.
pub const LOOP_ROUNDS: u64 = 0xffff_ffff_ffff_ffff;

/// The value of an operand and the locals after its evaluation.
pub open spec fn resolve(
    funcs: Seq<Function>,
    input: Input,
    locals: Seq<StackValue>,
    space: int,
    depth: nat,
) -> (Trap<StackValue>, Seq<StackValue>)
    decreases depth, 0nat, 0nat, 0nat,
{
    match input {
        Input::Local(idx) => if idx < locals.len() {
            (Ok(locals[idx as int]), locals)
        } else {
            (Err(TrapKind::StackOverflow), locals)
        },
        Input::Const(val) => (Ok(val), locals),
        Input::Op(op) => if depth == 0 {
            (Err(TrapKind::StackOverflow), locals)
        } else {
            apply(funcs, *op, locals, space, (depth - 1) as nat)
        },
    }
}

/// The values of the arguments of a call, evaluated first to last.
pub open spec fn gather(
    funcs: Seq<Function>,
    args: Args,
    locals: Seq<StackValue>,
    space: int,
    depth: nat,
) -> (Trap<Seq<StackValue>>, Seq<StackValue>)
    decreases depth, 1nat, args.len(), 0nat,
{
    match args {
        Args::Nil => (Ok(Seq::empty()), locals),
        Args::Cons(first, rest) => {
            let (head, mid) = resolve(funcs, first, locals, space, depth);
            match head {
                Err(trap) => (Err(trap), mid),
                Ok(val) => {
                    let (tail, last) = gather(funcs, *rest, mid, space, depth);
                    match tail {
                        Err(trap) => (Err(trap), last),
                        Ok(vals) => (Ok(seq![val] + vals), last),
                    }
                },
            }
        },
    }
}

/// The result of an operation and the locals after it.
pub open spec fn apply(
    funcs: Seq<Function>,
    op: Op,
    locals: Seq<StackValue>,
    space: int,
    depth: nat,
) -> (Trap<StackValue>, Seq<StackValue>)
    decreases depth, 2nat, 0nat, 0nat,
{
    match op {
        Op::Unary(kind, operand) => {
            let (res, mid) = resolve(funcs, operand, locals, space, depth);
            match res {
                Err(trap) => (Err(trap), mid),
                Ok(val) => (Ok(unary_spec(kind, val)), mid),
            }
        },
        Op::Binary(kind, left, right) => {
            let (first, mid) = resolve(funcs, left, locals, space, depth);
            match first {
                Err(trap) => (Err(trap), mid),
                Ok(lhs) => {
                    let (second, last) = resolve(funcs, right, mid, space, depth);
                    match second {
                        Err(trap) => (Err(trap), last),
                        Ok(rhs) => (binary_spec(kind, lhs, rhs), last),
                    }
                },
            }
        },
        Op::Select(first, second, cond) => {
            let (one, mid) = resolve(funcs, first, locals, space, depth);
            match one {
                Err(trap) => (Err(trap), mid),
                Ok(lhs) => {
                    let (two, next) = resolve(funcs, second, mid, space, depth);
                    match two {
                        Err(trap) => (Err(trap), next),
                        Ok(rhs) => {
                            let (three, last) = resolve(funcs, cond, next, space, depth);
                            match three {
                                Err(trap) => (Err(trap), last),
                                Ok(val) => (Ok(if val.0 != 0 { lhs } else { rhs }), last),
                            }
                        },
                    }
                },
            }
        },
        Op::Tee(idx, operand) => {
            let (res, mid) = resolve(funcs, operand, locals, space, depth);
            match res {
                Err(trap) => (Err(trap), mid),
                Ok(val) => if idx < mid.len() {
                    (Ok(val), mid.update(idx as int, val))
                } else {
                    (Err(TrapKind::StackOverflow), mid)
                },
            }
        },
        Op::Call(addr, args) => {
            let (res, mid) = gather(funcs, args, locals, space, depth);
            match res {
                Err(trap) => (Err(trap), mid),
                Ok(vals) => if addr >= funcs.len() {
                    (Err(TrapKind::InvalidFunctionAddr), mid)
                } else if funcs[addr as int].params() != vals.len() {
                    (Err(TrapKind::UnexpectedSignature), mid)
                } else if space < vals.len() {
                    (Err(TrapKind::StackOverflow), mid)
                } else {
                    match invoke(funcs, funcs[addr as int], vals, space - vals.len(), depth) {
                        Err(trap) => (Err(trap), mid),
                        Ok(Some(val)) => (Ok(val), mid),
                        Ok(None) => (Ok(StackValue(0)), mid),
                    }
                },
            }
        },
    }
}

/// What a function returns for the given arguments when `space` cells are
/// free above them. Its locals and its operand slots start as zero.
pub open spec fn invoke(
    funcs: Seq<Function>,
    func: Function,
    args: Seq<StackValue>,
    space: int,
    depth: nat,
) -> Trap<Option<StackValue>>
    decreases depth, 0nat, 0nat, 0nat,
{
    match func.body {
        FunctionBody::Host(_) => Err(TrapKind::NotImplemented),
        FunctionBody::Compiled(body) => {
            let count = body.local_types@.len() + body.operands as nat;
            if depth == 0 || space < count {
                Err(TrapKind::StackOverflow)
            } else {
                match run(
                    funcs,
                    body.run,
                    0,
                    args + zero_cells(count),
                    space - count,
                    (depth - 1) as nat,
                    LOOP_ROUNDS as nat,
                ).0 {
                    Err(trap) => Err(trap),
                    Ok(Action::Return(ret)) => Ok(ret),
                    Ok(_) => Ok(None),
                }
            }
        },
    }
}

/// What the register of local 0 holds after a call that found it holding
/// `l0`: local 0 of the callee as the body left it, if the body ran and the
/// callee has a local; else what it held before.
pub open spec fn invoke_register(
    funcs: Seq<Function>,
    func: Function,
    args: Seq<StackValue>,
    space: int,
    depth: nat,
    l0: StackValue,
) -> StackValue {
    match func.body {
        FunctionBody::Host(_) => l0,
        FunctionBody::Compiled(body) => {
            let count = body.local_types@.len() + body.operands as nat;
            if depth == 0 || space < count || args.len() + count == 0 {
                l0
            } else {
                run(
                    funcs,
                    body.run,
                    0,
                    args + zero_cells(count),
                    space - count,
                    (depth - 1) as nat,
                    LOOP_ROUNDS as nat,
                ).1[0]
            }
        },
    }
}

/// What a statement tells its block, and the locals after it.
pub open spec fn step(
    funcs: Seq<Function>,
    item: Eval,
    locals: Seq<StackValue>,
    space: int,
    depth: nat,
) -> (Trap<Action>, Seq<StackValue>)
    decreases depth, 3nat, 0nat, 0nat,
{
    match item {
        Eval::Nested(block) => enter(funcs, block, locals, space, depth),
        Eval::If(cond, then_block, else_block) => {
            let (res, mid) = resolve(funcs, cond, locals, space, depth);
            match res {
                Err(trap) => (Err(trap), mid),
                Ok(val) => if val.0 != 0 {
                    enter(funcs, then_block, mid, space, depth)
                } else {
                    match else_block {
                        Some(block) => enter(funcs, block, mid, space, depth),
                        None => (Ok(Action::End), mid),
                    }
                },
            }
        },
        Eval::SetLocal(idx, operand) => {
            let (res, mid) = resolve(funcs, operand, locals, space, depth);
            match res {
                Err(trap) => (Err(trap), mid),
                Ok(val) => if idx < mid.len() {
                    (Ok(Action::End), mid.update(idx as int, val))
                } else {
                    (Err(TrapKind::StackOverflow), mid)
                },
            }
        },
        Eval::Drop(operand) => {
            let (res, mid) = resolve(funcs, operand, locals, space, depth);
            match res {
                Err(trap) => (Err(trap), mid),
                Ok(_) => (Ok(Action::End), mid),
            }
        },
        Eval::Return(None) => (Ok(Action::Return(None)), locals),
        Eval::Return(Some(operand)) => {
            let (res, mid) = resolve(funcs, operand, locals, space, depth);
            match res {
                Err(trap) => (Err(trap), mid),
                Ok(val) => (Ok(Action::Return(Some(val))), mid),
            }
        },
        Eval::Br(target) => (Ok(Action::Branch(target)), locals),
        Eval::BrIf(cond, target) => {
            let (res, mid) = resolve(funcs, cond, locals, space, depth);
            match res {
                Err(trap) => (Err(trap), mid),
                Ok(val) => if val.0 != 0 {
                    (Ok(Action::Branch(target)), mid)
                } else {
                    (Ok(Action::End), mid)
                },
            }
        },
        Eval::BrTable(index, table, default) => {
            let (res, mid) = resolve(funcs, index, locals, space, depth);
            match res {
                Err(trap) => (Err(trap), mid),
                Ok(val) => (Ok(Action::Branch(selected(table@, default, val))), mid),
            }
        },
        Eval::Trap(kind) => (Err(kind), locals),
    }
}

/// The branch depth that an index selects: it is read as an unsigned 32-bit
/// number, and past the end of the table it selects the default.
pub open spec fn selected(table: Seq<u32>, default: u32, index: StackValue) -> u32 {
    let at = crate::i32_ops::unsigned(index);
    if at < table.len() {
        table[at as int]
    } else {
        default
    }
}

/// A block run from its first statement, one level further in.
pub open spec fn enter(
    funcs: Seq<Function>,
    block: Block,
    locals: Seq<StackValue>,
    space: int,
    depth: nat,
) -> (Trap<Action>, Seq<StackValue>)
    decreases depth, 1nat, 0nat, 0nat,
{
    if depth == 0 {
        (Err(TrapKind::StackOverflow), locals)
    } else {
        run(funcs, block, 0, locals, space, (depth - 1) as nat, LOOP_ROUNDS as nat)
    }
}

/// A block run from statement `from` on, with `rounds` restarts left.
///
/// `End` passes to the next statement and `Return` leaves the block at once.
/// `Branch(d)` with `d > 0` leaves it as `Branch(d - 1)`. `Branch(0)`
/// restarts a loop from its first statement and ends any other block.
pub open spec fn run(
    funcs: Seq<Function>,
    block: Block,
    from: int,
    locals: Seq<StackValue>,
    space: int,
    depth: nat,
    rounds: nat,
) -> (Trap<Action>, Seq<StackValue>)
    decreases depth, 4nat, rounds, block.eval@.len() - from,
{
    if from < 0 || from >= block.eval@.len() {
        (Ok(Action::End), locals)
    } else {
        let (res, mid) = step(funcs, block.eval@[from], locals, space, depth);
        match res {
            Err(trap) => (Err(trap), mid),
            Ok(Action::Return(ret)) => (Ok(Action::Return(ret)), mid),
            Ok(Action::End) => run(funcs, block, from + 1, mid, space, depth, rounds),
            Ok(Action::Branch(target)) => if target > 0 {
                (Ok(Action::Branch((target - 1) as u32)), mid)
            } else if block.kind == BlockKind::Loop {
                if rounds == 0 {
                    (Err(TrapKind::StackOverflow), mid)
                } else {
                    run(funcs, block, 0, mid, space, depth, (rounds - 1) as nat)
                }
            } else {
                (Ok(Action::End), mid)
            },
        }
    }
}

/// A branch that reaches a block at depth zero restarts it if it is a loop
/// and ends it otherwise; at a greater depth it leaves the block and goes on
/// outwards with the depth reduced by one.
pub proof fn branch_semantics(
    funcs: Seq<Function>,
    block: Block,
    from: int,
    locals: Seq<StackValue>,
    space: int,
    depth: nat,
    rounds: nat,
    target: u32,
)
    requires
        0 <= from < block.eval@.len(),
        step(funcs, block.eval@[from], locals, space, depth).0 == Trap::<Action>::Ok(
            Action::Branch(target),
        ),
    ensures
        ({
            let mid = step(funcs, block.eval@[from], locals, space, depth).1;
            let res = run(funcs, block, from, locals, space, depth, rounds);
            &&& target > 0 ==> res == (
                Trap::<Action>::Ok(Action::Branch((target - 1) as u32)),
                mid,
            )
            &&& target == 0 && block.kind == BlockKind::Loop && rounds > 0 ==> res == run(
                funcs,
                block,
                0,
                mid,
                space,
                depth,
                (rounds - 1) as nat,
            )
            &&& target == 0 && block.kind != BlockKind::Loop ==> res == (
                Trap::<Action>::Ok(Action::End),
                mid,
            )
        }),
{
}

/// The body of a function of one parameter that does nothing but return
/// what a call of the function at `addr` gives for its own argument.
pub open spec fn calls_only(func: Function, addr: u32) -> bool {
    &&& func.params() == 1
    &&& func.body matches FunctionBody::Compiled(body) && body.run.eval@.len() == 1
        && body.run.eval@[0] == Eval::Return(
        Some(
            Input::Op(
                Box::new(Op::Call(addr, Args::Cons(Input::Local(0), Box::new(Args::Nil)))),
            ),
        ),
    )
}

/// Recursion without an end is a stack overflow: a function that only
/// calls itself traps with `StackOverflow`, however many cells are free and
/// however deep calls may nest.
pub proof fn endless_recursion_overflows(
    funcs: Seq<Function>,
    addr: u32,
    args: Seq<StackValue>,
    space: int,
    depth: nat,
)
    requires
        addr < funcs.len(),
        calls_only(funcs[addr as int], addr),
        args.len() == 1,
    ensures
        invoke(funcs, funcs[addr as int], args, space, depth) == Trap::<Option<StackValue>>::Err(
            TrapKind::StackOverflow,
        ),
    decreases depth,
{
    let func = funcs[addr as int];
    let body = func.body->Compiled_0;
    let count = body.local_types@.len() + body.operands as nat;
    if depth > 0 && space >= count {
        let locals = args + zero_cells(count);
        let inner = (depth - 1) as nat;
        let room = space - count;
        let call = Op::Call(addr, Args::Cons(Input::Local(0), Box::new(Args::Nil)));
        let operand = Input::Op(Box::new(call));
        assert(body.run.eval@[0] == Eval::Return(Some(operand)));
        assert(resolve(funcs, operand, locals, room, inner).0 == Trap::<StackValue>::Err(
            TrapKind::StackOverflow,
        )) by {
            if inner > 0 {
                let deeper = (inner - 1) as nat;
                let list = Args::Cons(Input::Local(0), Box::new(Args::Nil));
                assert(resolve(funcs, Input::Local(0), locals, room, deeper) == (
                    Trap::<StackValue>::Ok(locals[0]),
                    locals,
                ));
                assert(gather(funcs, Args::Nil, locals, room, deeper) == (
                    Trap::<Seq<StackValue>>::Ok(Seq::empty()),
                    locals,
                ));
                assert(gather(funcs, list, locals, room, deeper) == (
                    Trap::<Seq<StackValue>>::Ok(seq![locals[0]] + Seq::<StackValue>::empty()),
                    locals,
                ));
                let vals = seq![locals[0]] + Seq::<StackValue>::empty();
                assert(vals.len() == 1);
                if room >= 1 {
                    endless_recursion_overflows(funcs, addr, vals, room - 1, deeper);
                }
                assert(apply(funcs, call, locals, room, deeper).0 == Trap::<StackValue>::Err(
                    TrapKind::StackOverflow,
                ));
            }
        }
        assert(step(funcs, body.run.eval@[0], locals, room, inner).0 == Trap::<Action>::Err(
            TrapKind::StackOverflow,
        ));
        assert(run(funcs, body.run, 0, locals, room, inner, LOOP_ROUNDS as nat).0 == Trap::<
            Action,
        >::Err(TrapKind::StackOverflow));
    }
}

} // verus!
