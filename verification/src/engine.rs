//! Runs a block tree on a store.
//!
//! Local 0 of the running function lives in a register that is handed down
//! by reference; every other local lives in its slot of the frame on the
//! stack. Each function here computes what `semantics` says of a plain
//! sequence of locals, and leaves everything outside the frame as it was.
use vstd::prelude::*;

use crate::error::{Trap, TrapKind};
use crate::function::{Function, FunctionBody};
use crate::kernel::{apply_binary, apply_unary};
use crate::semantics::{
    apply, enter, gather, invoke, invoke_register, resolve, run, step, LOOP_ROUNDS,
};
use crate::stack::StackValue;
use crate::tree::{Action, Args, Block, BlockKind, Eval, Input, Op};
use crate::vm::{State, Store};

verus! {

impl Input {
    /// The value of the operand.
    pub fn resolv(&self, state: &State, store: &mut Store, l0: &mut StackValue, depth: usize) -> (res:
        Trap<StackValue>)
        requires
            old(store).stack.wf(),
        ensures
            final(store).stack.wf(),
            old(store).kept(final(store)),
            old(store).stack@.local_count() == 0 ==> *final(l0) == *old(l0),
            (res, final(store).stack@.locals(*final(l0))) == resolve(
                state.functions(),
                *self,
                old(store).stack@.locals(*old(l0)),
                old(store).stack@.space(),
                depth as nat,
            ),
        decreases depth, 0nat, 0nat, 0nat,
    {
        match self {
            Input::Local(idx) => store.stack.get_local_val(*idx, &*l0),
            Input::Const(val) => Ok(*val),
            Input::Op(op) => if depth == 0 {
                Err(TrapKind::StackOverflow)
            } else {
                op.apply(state, store, l0, depth - 1)
            },
        }
    }
}

impl Args {
    /// Appends the values of the arguments to `out`, first to last.
    pub fn collect(
        &self,
        state: &State,
        store: &mut Store,
        l0: &mut StackValue,
        depth: usize,
        out: &mut Vec<StackValue>,
    ) -> (res: Trap<()>)
        requires
            old(store).stack.wf(),
        ensures
            final(store).stack.wf(),
            old(store).kept(final(store)),
            old(store).stack@.local_count() == 0 ==> *final(l0) == *old(l0),
            final(store).stack@.locals(*final(l0)) == gather(
                state.functions(),
                *self,
                old(store).stack@.locals(*old(l0)),
                old(store).stack@.space(),
                depth as nat,
            ).1,
            match gather(
                state.functions(),
                *self,
                old(store).stack@.locals(*old(l0)),
                old(store).stack@.space(),
                depth as nat,
            ).0 {
                Ok(vals) => res is Ok && final(out)@ == old(out)@ + vals,
                Err(trap) => res == Trap::<()>::Err(trap),
            },
        decreases depth, 1nat, self.len(), 0nat,
    {
        match self {
            Args::Nil => {
                assert(out@ + Seq::<StackValue>::empty() =~= out@);
                Ok(())
            },
            Args::Cons(first, rest) => {
                let val = first.resolv(state, store, l0, depth)?;
                out.push(val);
                let res = rest.collect(state, store, l0, depth, out);
                proof {
                    if res is Ok {
                        let vals = gather(
                            state.functions(),
                            **rest,
                            resolve(
                                state.functions(),
                                *first,
                                old(store).stack@.locals(*old(l0)),
                                old(store).stack@.space(),
                                depth as nat,
                            ).1,
                            old(store).stack@.space(),
                            depth as nat,
                        ).0->Ok_0;
                        assert(old(out)@.push(val) + vals =~= old(out)@ + (seq![val] + vals));
                    }
                }
                res
            },
        }
    }
}

impl Op {
    /// The result of the operation.
    pub fn apply(&self, state: &State, store: &mut Store, l0: &mut StackValue, depth: usize) -> (res:
        Trap<StackValue>)
        requires
            old(store).stack.wf(),
        ensures
            final(store).stack.wf(),
            old(store).kept(final(store)),
            old(store).stack@.local_count() == 0 ==> *final(l0) == *old(l0),
            (res, final(store).stack@.locals(*final(l0))) == apply(
                state.functions(),
                *self,
                old(store).stack@.locals(*old(l0)),
                old(store).stack@.space(),
                depth as nat,
            ),
        decreases depth, 2nat, 0nat, 0nat,
    {
        match self {
            Op::Unary(kind, operand) => {
                let val = operand.resolv(state, store, l0, depth)?;
                Ok(apply_unary(*kind, val))
            },
            Op::Binary(kind, left, right) => {
                let lhs = left.resolv(state, store, l0, depth)?;
                let rhs = right.resolv(state, store, l0, depth)?;
                apply_binary(*kind, lhs, rhs)
            },
            Op::Select(first, second, cond) => {
                let lhs = first.resolv(state, store, l0, depth)?;
                let rhs = second.resolv(state, store, l0, depth)?;
                let val = cond.resolv(state, store, l0, depth)?;
                if val.0 != 0 {
                    Ok(lhs)
                } else {
                    Ok(rhs)
                }
            },
            Op::Tee(idx, operand) => {
                let val = operand.resolv(state, store, l0, depth)?;
                store.stack.set_local_val(*idx, val, l0)?;
                Ok(val)
            },
            Op::Call(addr, args) => {
                let mut vals: Vec<StackValue> = Vec::new();
                args.collect(state, store, l0, depth, &mut vals)?;
                let func = state.get_function(*addr)?;
                if func.param_count() != vals.len() {
                    return Err(TrapKind::UnexpectedSignature);
                }
                let ghost mid = store.stack@;
                store.stack.push_cells(&vals)?;
                let mut reg = if vals.len() > 0 {
                    vals[0]
                } else {
                    StackValue(0)
                };
                proof {
                    assert(store.stack@.arguments(vals@.len() as int, reg) =~= vals@);
                    assert(store.stack@.truncate(store.stack@.len() - vals@.len()) == mid) by {
                        assert((mid.cells + vals@).take(mid.cells.len() as int) =~= mid.cells);
                    }
                }
                match func.call(state, store, &mut reg, depth) {
                    Ok(Some(val)) => Ok(val),
                    Ok(None) => Ok(StackValue(0)),
                    Err(trap) => Err(trap),
                }
            },
        }
    }
}

impl Function {
    /// Calls the function with the topmost operands of the current frame as
    /// its arguments, the first of them taken from `l0`, which is the
    /// register of local 0 while the function runs and holds what the body
    /// left in local 0 afterwards.
    ///
    /// When the frame holds fewer operands than the function has parameters
    /// the call fails and changes nothing. Otherwise the arguments are
    /// consumed, whatever the outcome, and nothing else on the stack differs.
    pub fn call(&self, state: &State, store: &mut Store, l0: &mut StackValue, depth: usize) -> (res:
        Trap<Option<StackValue>>)
        requires
            old(store).stack.wf(),
        ensures
            final(store).stack.wf(),
            old(store).same_but_stack(final(store)),
            old(store).stack@.frame_size() < self.params() ==> res == Trap::<
                Option<StackValue>,
            >::Err(TrapKind::StackOverflow) && final(store).stack@ == old(store).stack@
                && *final(l0) == *old(l0),
            old(store).stack@.frame_size() >= self.params() ==> final(store).stack@ == old(store).stack@.truncate(old(store).stack@.len() - self.params()) && res == invoke(
                state.functions(),
                *self,
                old(store).stack@.arguments(self.params() as int, *old(l0)),
                old(store).stack@.space(),
                depth as nat,
            ) && *final(l0) == invoke_register(
                state.functions(),
                *self,
                old(store).stack@.arguments(self.params() as int, *old(l0)),
                old(store).stack@.space(),
                depth as nat,
                *old(l0),
            ),
        decreases depth, 0nat, 0nat, 0nat,
    {
        let params = self.param_count();
        if store.stack.frame_size() < params {
            return Err(TrapKind::StackOverflow);
        }
        let ghost before = store.stack@;
        let space = store.stack.limit() - store.stack.len();
        match &self.body {
            FunctionBody::Host(_) => {
                let prev = store.stack.push_frame(params, 0);
                assert(prev is Ok);
                store.stack.pop_frame(prev.unwrap());
                assert(store.stack@.cells =~= before.cells.take(before.len() - params));
                Err(TrapKind::NotImplemented)
            },
            FunctionBody::Compiled(body) => {
                let fits = body.operands <= space && body.local_types.len() <= space
                    - body.operands;
                let count = if fits {
                    body.local_types.len() + body.operands
                } else {
                    0
                };
                if depth == 0 || !fits {
                    let prev = store.stack.push_frame(params, 0);
                    assert(prev is Ok);
                    store.stack.pop_frame(prev.unwrap());
                    assert(store.stack@.cells =~= before.cells.take(before.len() - params));
                    return Err(TrapKind::StackOverflow);
                }
                let prev = store.stack.push_frame(params, count);
                assert(prev is Ok);
                if params == 0 && count > 0 {
                    *l0 = StackValue(0);
                }
                let ghost entered = store.stack@;
                proof {
                    assert(entered.locals(*l0) =~= before.arguments(params as int, *old(l0))
                        + crate::stack::zero_cells(count as nat));
                }
                let outcome = body.run.run(state, store, l0, depth - 1);
                store.stack.pop_frame(prev.unwrap());
                proof {
                    assert(store.stack@.cells =~= before.cells.take(before.len() - params));
                }
                match outcome {
                    Err(trap) => Err(trap),
                    Ok(Action::Return(ret)) => Ok(ret),
                    Ok(_) => Ok(None),
                }
            },
        }
    }
}

impl Eval {
    /// Runs the statement.
    pub fn exec(&self, state: &State, store: &mut Store, l0: &mut StackValue, depth: usize) -> (res:
        Trap<Action>)
        requires
            old(store).stack.wf(),
        ensures
            final(store).stack.wf(),
            old(store).kept(final(store)),
            old(store).stack@.local_count() == 0 ==> *final(l0) == *old(l0),
            (res, final(store).stack@.locals(*final(l0))) == step(
                state.functions(),
                *self,
                old(store).stack@.locals(*old(l0)),
                old(store).stack@.space(),
                depth as nat,
            ),
        decreases depth, 3nat, 0nat, 0nat,
    {
        match self {
            Eval::Nested(block) => block.enter(state, store, l0, depth),
            Eval::If(cond, then_block, else_block) => {
                let val = cond.resolv(state, store, l0, depth)?;
                if val.0 != 0 {
                    then_block.enter(state, store, l0, depth)
                } else {
                    match else_block {
                        Some(block) => block.enter(state, store, l0, depth),
                        None => Ok(Action::End),
                    }
                }
            },
            Eval::SetLocal(idx, operand) => {
                let val = operand.resolv(state, store, l0, depth)?;
                store.stack.set_local_val(*idx, val, l0)?;
                Ok(Action::End)
            },
            Eval::Drop(operand) => {
                let _ = operand.resolv(state, store, l0, depth)?;
                Ok(Action::End)
            },
            Eval::Return(None) => Ok(Action::Return(None)),
            Eval::Return(Some(operand)) => {
                let val = operand.resolv(state, store, l0, depth)?;
                Ok(Action::Return(Some(val)))
            },
            Eval::Br(target) => Ok(Action::Branch(*target)),
            Eval::BrIf(cond, target) => {
                let val = cond.resolv(state, store, l0, depth)?;
                if val.0 != 0 {
                    Ok(Action::Branch(*target))
                } else {
                    Ok(Action::End)
                }
            },
            Eval::BrTable(index, table, default) => {
                let val = index.resolv(state, store, l0, depth)?;
                let at = crate::i32_ops::to_unsigned(val) as usize;
                if at < table.len() {
                    Ok(Action::Branch(table[at]))
                } else {
                    Ok(Action::Branch(*default))
                }
            },
            Eval::Trap(kind) => Err(*kind),
        }
    }
}

impl Block {
    /// Runs the block from its first statement, one level further in.
    pub fn enter(&self, state: &State, store: &mut Store, l0: &mut StackValue, depth: usize) -> (res:
        Trap<Action>)
        requires
            old(store).stack.wf(),
        ensures
            final(store).stack.wf(),
            old(store).kept(final(store)),
            old(store).stack@.local_count() == 0 ==> *final(l0) == *old(l0),
            (res, final(store).stack@.locals(*final(l0))) == enter(
                state.functions(),
                *self,
                old(store).stack@.locals(*old(l0)),
                old(store).stack@.space(),
                depth as nat,
            ),
        decreases depth, 1nat, 0nat, 0nat,
    {
        if depth == 0 {
            Err(TrapKind::StackOverflow)
        } else {
            self.run(state, store, l0, depth - 1)
        }
    }

    /// Runs the statements in order. `End` passes to the next one and
    /// `Return` leaves the block at once. `Branch(d)` with `d > 0` leaves it
    /// as `Branch(d - 1)`; `Branch(0)` restarts a loop and ends any other
    /// block.
    pub fn run(&self, state: &State, store: &mut Store, l0: &mut StackValue, depth: usize) -> (res:
        Trap<Action>)
        requires
            old(store).stack.wf(),
        ensures
            final(store).stack.wf(),
            old(store).kept(final(store)),
            old(store).stack@.local_count() == 0 ==> *final(l0) == *old(l0),
            (res, final(store).stack@.locals(*final(l0))) == run(
                state.functions(),
                *self,
                0,
                old(store).stack@.locals(*old(l0)),
                old(store).stack@.space(),
                depth as nat,
                LOOP_ROUNDS as nat,
            ),
        decreases depth, 4nat, 0nat, 0nat,
    {
        let ghost space = store.stack@.space();
        let ghost goal = run(
            state.functions(),
            *self,
            0,
            store.stack@.locals(*l0),
            space,
            depth as nat,
            LOOP_ROUNDS as nat,
        );
        let mut rounds: u64 = LOOP_ROUNDS;
        let mut at: usize = 0;
        loop
            invariant
                at <= self.eval@.len(),
                store.stack.wf(),
                old(store).kept(store),
                old(store).stack@.local_count() == 0 ==> *l0 == *old(l0),
                space == old(store).stack@.space(),
                goal == run(
                    state.functions(),
                    *self,
                    0,
                    old(store).stack@.locals(*old(l0)),
                    space,
                    depth as nat,
                    LOOP_ROUNDS as nat,
                ),
                run(
                    state.functions(),
                    *self,
                    at as int,
                    store.stack@.locals(*l0),
                    space,
                    depth as nat,
                    rounds as nat,
                ) == goal,
            decreases rounds, self.eval@.len() - at,
        {
            if at >= self.eval.len() {
                return Ok(Action::End);
            }
            let ghost here = store.stack@;
            let action = self.eval[at].exec(state, store, l0, depth)?;
            proof {
                assert(here.same_outside(store.stack@));
            }
            match action {
                Action::Return(ret) => {
                    return Ok(Action::Return(ret));
                },
                Action::End => {
                    at = at + 1;
                },
                Action::Branch(target) => {
                    if target > 0 {
                        return Ok(Action::Branch(target - 1));
                    }
                    match self.kind {
                        BlockKind::Loop => {
                            if rounds == 0 {
                                return Err(TrapKind::StackOverflow);
                            }
                            rounds = rounds - 1;
                            at = 0;
                        },
                        _ => {
                            return Ok(Action::End);
                        },
                    }
                },
            }
        }
    }
}

} // verus!
