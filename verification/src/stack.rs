use vstd::prelude::*;

use crate::error::{Trap, TrapKind};
use crate::value::{LocalIdx, Value, ValueType};

verus! {

pub const DEFAULT_STACK_LIMIT: usize = 1048576;

pub const INIT_STACK_SIZE: usize = 1024;

#[derive(Debug)]
pub struct StackPtr(pub usize);

/// An untyped 64-bit cell. An operator reads it at the width and signedness
/// it is declared for; the cell itself carries no type.
#[derive(Debug, Clone, Copy, PartialEq, Eq, Structural)]
pub struct StackValue(pub u64);

/// The activation frame of the running function: `[bp, sbp)` holds its
/// parameters and locals, and the operand stack starts at `sbp`.
#[derive(Debug, Clone, Copy, PartialEq, Eq, Structural)]
pub struct Frame {
    /// Base pointer: the first parameter or local.
    pub bp: usize,
    /// Stack base pointer: the first slot of the operand stack.
    pub sbp: usize,
}

impl Default for Frame {
    fn default() -> (f: Frame)
        ensures
            f == (Frame { bp: 0, sbp: 0 }),
    {
        Frame { bp: 0, sbp: 0 }
    }
}

/// The cell that stands for a tagged value: integers keep their two's
/// complement value, sign-extended to 64 bits; floats keep their bit pattern.
pub open spec fn cell_of(val: Value) -> StackValue {
    match val {
        Value::I32(v) => StackValue(v as u64),
        Value::I64(v) => StackValue(v as u64),
        Value::F32(v) => StackValue(v as u64),
        Value::F64(v) => StackValue(v),
    }
}

/// The tagged value that a cell holds when it is read at the given type.
pub open spec fn value_of(cell: StackValue, val_type: ValueType) -> Value {
    match val_type {
        ValueType::I32 => Value::I32(cell.0 as i32),
        ValueType::I64 => Value::I64(cell.0 as i64),
        ValueType::F32 => Value::F32(cell.0 as u32),
        ValueType::F64 => Value::F64(cell.0),
    }
}

pub open spec fn cells_of(vals: Seq<Value>) -> Seq<StackValue> {
    Seq::new(vals.len(), |i: int| cell_of(vals[i]))
}

pub open spec fn zero_cells(n: nat) -> Seq<StackValue> {
    Seq::new(n, |i: int| StackValue(0))
}

/// What a `Stack` is: its cells from the bottom up, the current frame and the
/// number of cells it may hold.
pub struct StackView {
    pub cells: Seq<StackValue>,
    pub frame: Frame,
    pub limit: nat,
}

impl StackView {
    /// The stack that holds nothing and may hold `limit` cells.
    pub open spec fn empty(limit: nat) -> StackView {
        StackView { cells: Seq::empty(), frame: Frame { bp: 0, sbp: 0 }, limit }
    }

    /// `0 <= bp <= sbp <= len <= limit`, and the limit is a length that a
    /// stack can have.
    pub open spec fn wf(self) -> bool {
        self.frame.bp <= self.frame.sbp <= self.cells.len() <= self.limit <= usize::MAX
    }

    pub open spec fn len(self) -> nat {
        self.cells.len()
    }

    /// Number of operands above the locals of the current frame.
    pub open spec fn frame_size(self) -> int {
        self.cells.len() - self.frame.sbp
    }

    /// Number of parameters and locals of the current frame.
    pub open spec fn local_count(self) -> int {
        self.frame.sbp - self.frame.bp
    }

    /// Number of cells that can still be pushed.
    pub open spec fn space(self) -> int {
        self.limit - self.cells.len()
    }

    /// The slots of the current frame as the stack holds them.
    pub open spec fn slots(self) -> Seq<StackValue> {
        self.cells.subrange(self.frame.bp as int, self.frame.sbp as int)
    }

    /// The locals of the current frame as the running function sees them
    /// while local 0 lives in the register `l0`.
    pub open spec fn locals(self, l0: StackValue) -> Seq<StackValue> {
        if self.frame.bp < self.frame.sbp {
            self.slots().update(0, l0)
        } else {
            self.slots()
        }
    }

    pub open spec fn with_cells(self, cells: Seq<StackValue>) -> StackView {
        StackView { cells, ..self }
    }

    pub open spec fn push(self, val: StackValue) -> StackView {
        self.with_cells(self.cells.push(val))
    }

    pub open spec fn pop(self) -> StackView {
        self.with_cells(self.cells.drop_last())
    }

    pub open spec fn top(self) -> StackValue {
        self.cells.last()
    }

    pub open spec fn truncate(self, len: int) -> StackView {
        self.with_cells(self.cells.take(len))
    }

    pub open spec fn set_slot(self, local: int, val: StackValue) -> StackView {
        self.with_cells(self.cells.update(self.frame.bp + local, val))
    }

    /// The stack once a frame with `params` parameters, taken from the top of
    /// the operand stack, and `locals` zeroed locals has been entered.
    pub open spec fn enter(self, params: int, locals: int) -> StackView {
        StackView {
            cells: self.cells + zero_cells(locals as nat),
            frame: Frame {
                bp: (self.cells.len() - params) as usize,
                sbp: (self.cells.len() + locals) as usize,
            },
            limit: self.limit,
        }
    }

    /// `other` is this stack but for the slots of the current frame above
    /// slot 0: nothing below or above the locals differs.
    pub open spec fn same_outside(self, other: StackView) -> bool {
        &&& other.frame == self.frame
        &&& other.limit == self.limit
        &&& other.cells.len() == self.cells.len()
        &&& forall|j: int|
            0 <= j < self.cells.len() && !(self.frame.bp < j < self.frame.sbp)
                ==> #[trigger] other.cells[j] == self.cells[j]
    }

    /// The topmost `count` cells as a call passes them to its callee: the
    /// first argument is the one in the register `l0`.
    pub open spec fn arguments(self, count: int, l0: StackValue) -> Seq<StackValue> {
        let top = self.cells.subrange(self.cells.len() - count, self.cells.len() as int);
        if count > 0 {
            top.update(0, l0)
        } else {
            top
        }
    }

    /// How an operator that yields `out` for the `count` topmost operands
    /// ends: its result replaces them, or its trap is passed on and the
    /// stack stays as it is.
    pub open spec fn replaced(self, count: int, out: Trap<StackValue>, res: Trap<()>, after: StackView) -> bool {
        match out {
            Ok(val) => res == Trap::<()>::Ok(()) && after == self.truncate(
                self.cells.len() - count,
            ).push(val),
            Err(trap) => res == Trap::<()>::Err(trap) && after == self,
        }
    }

    /// While local 0 lives in a register the running function sees the
    /// locals that the frame would hold with the register written to slot 0.
    pub proof fn register_is_slot_zero(self, l0: StackValue)
        requires
            self.wf(),
        ensures
            self.local_count() > 0 ==> self.locals(l0) == self.set_slot(0, l0).slots(),
            self.local_count() == 0 ==> self.locals(l0) == self.slots(),
    {
        if self.local_count() > 0 {
            assert(self.locals(l0) =~= self.set_slot(0, l0).slots());
        }
    }

    /// What pushing the arguments of a call makes of the stack: they are
    /// operands of the current frame, the register of the callee holds the
    /// first of them, and taking them off again gives the stack as it was.
    pub proof fn lemma_pushed(self, cells: Seq<StackValue>, l0: StackValue)
        requires
            self.wf(),
            cells.len() <= self.space(),
            cells.len() > 0 ==> l0 == cells[0],
        ensures
            self.with_cells(self.cells + cells).wf(),
            self.with_cells(self.cells + cells).frame_size() >= cells.len(),
            self.with_cells(self.cells + cells).space() == self.space() - cells.len(),
            self.with_cells(self.cells + cells).truncate(self.cells.len() as int) == self,
            self.with_cells(self.cells + cells).arguments(cells.len() as int, l0) == cells,
    {
        let pushed = self.with_cells(self.cells + cells);
        assert(pushed.cells.take(self.cells.len() as int) =~= self.cells);
        assert(pushed.arguments(cells.len() as int, l0) =~= cells);
    }

    /// The stack once the current frame has been left for `prev`.
    pub open spec fn leave(self, prev: Frame) -> StackView {
        StackView { cells: self.cells.take(self.frame.bp as int), frame: prev, limit: self.limit }
    }
}

/// One contiguous run of cells that carries the operands and the locals of
/// every active frame.
#[derive(Debug)]
pub struct Stack {
    stack: Vec<StackValue>,
    /// Current frame.
    frame: Frame,
    /// Maximum stack size.
    limit: usize,
}

impl View for Stack {
    type V = StackView;

    closed spec fn view(&self) -> StackView {
        StackView { cells: self.stack@, frame: self.frame, limit: self.limit as nat }
    }
}

impl Stack {
    pub open spec fn wf(&self) -> bool {
        self@.wf()
    }

    pub fn new() -> (s: Stack)
        ensures
            s@ == StackView::empty(DEFAULT_STACK_LIMIT as nat),
            s.wf(),
    {
        Self::new_with_limit(DEFAULT_STACK_LIMIT)
    }

    pub fn new_with_limit(limit: usize) -> (s: Stack)
        ensures
            s@ == StackView::empty(limit as nat),
            s.wf(),
    {
        Stack { stack: Vec::with_capacity(INIT_STACK_SIZE), frame: Frame::default(), limit }
    }

    #[inline]
    pub fn len(&self) -> (n: usize)
        ensures
            n == self@.len(),
    {
        self.stack.len()
    }

    pub fn limit(&self) -> (n: usize)
        ensures
            n == self@.limit,
    {
        self.limit
    }

    pub fn frame(&self) -> (f: Frame)
        ensures
            f == self@.frame,
    {
        self.frame
    }

    /// How many values are on the current frame.
    pub fn frame_size(&self) -> (n: usize)
        requires
            self.wf(),
        ensures
            n == self@.frame_size(),
    {
        self.stack.len() - self.frame.sbp
    }

    fn check_overflow(&self, need: usize) -> (res: Trap<usize>)
        requires
            self.wf(),
        ensures
            res == if self@.space() < need {
                Trap::<usize>::Err(TrapKind::StackOverflow)
            } else {
                Ok(self@.len() as usize)
            },
    {
        let len = self.stack.len();
        let space = self.limit - len;
        if space < need {
            return Err(TrapKind::StackOverflow);
        }
        Ok(len)
    }

    /// Starts a new frame whose first `params` slots are the topmost operands
    /// of the current one, followed by `locals` zeroed slots, and returns the
    /// frame that was current. Fails, and changes nothing, when the current
    /// frame holds fewer than `params` operands or the locals do not fit.
    pub fn push_frame(&mut self, params: usize, locals: usize) -> (res: Trap<Frame>)
        requires
            old(self).wf(),
        ensures
            final(self).wf(),
            old(self)@.frame_size() < params || old(self)@.space() < locals ==> res == Trap::<
                Frame,
            >::Err(TrapKind::StackOverflow) && final(self)@ == old(self)@,
            old(self)@.frame_size() >= params && old(self)@.space() >= locals ==> res == Trap::<
                Frame,
            >::Ok(old(self)@.frame) && final(self)@ == old(self)@.enter(
                params as int,
                locals as int,
            ),
    {
        let cur_size = self.frame_size();
        if cur_size < params {
            return Err(TrapKind::StackOverflow);
        }
        let len = self.stack.len();
        if self.limit - len < locals {
            return Err(TrapKind::StackOverflow);
        }
        let old_frame = self.frame;
        let bp = len - params;
        self.frame = Frame { bp, sbp: len + locals };
        let ghost before = self.stack@;
        let mut idx: usize = 0;
        while idx < locals
            invariant
                idx <= locals,
                len + locals <= self.limit,
                self.stack@ == before + zero_cells(idx as nat),
                before.len() == len,
                self.frame == (Frame { bp, sbp: (len + locals) as usize }),
                self.limit == old(self).limit,
            decreases locals - idx,
        {
            self.stack.push(StackValue(0));
            idx = idx + 1;
            assert(self.stack@ =~= before + zero_cells(idx as nat));
        }
        Ok(old_frame)
    }

    /// Appends `locals` zeroed cells. Fails, and changes nothing, when they
    /// do not fit.
    pub fn reserve_locals(&mut self, locals: usize) -> (res: Trap<()>)
        requires
            old(self).wf(),
        ensures
            final(self).wf(),
            old(self)@.space() < locals ==> res == Trap::<()>::Err(TrapKind::StackOverflow)
                && final(self)@ == old(self)@,
            old(self)@.space() >= locals ==> res == Trap::<()>::Ok(()) && final(self)@ == old(self)@.with_cells(old(self)@.cells + zero_cells(locals as nat)),
    {
        let len = self.check_overflow(locals)?;
        let ghost before = self.stack@;
        let mut idx: usize = 0;
        while idx < locals
            invariant
                idx <= locals,
                len + locals <= self.limit,
                self.stack@ == before + zero_cells(idx as nat),
                before.len() == len,
                self.frame == old(self).frame,
                self.limit == old(self).limit,
                self.frame.sbp <= len,
            decreases locals - idx,
        {
            self.stack.push(StackValue(0));
            idx = idx + 1;
            assert(self.stack@ =~= before + zero_cells(idx as nat));
        }
        Ok(())
    }

    /// Drops everything from the base of the current frame upwards and makes
    /// `old_frame` current again.
    pub fn pop_frame(&mut self, old_frame: Frame)
        requires
            old(self).wf(),
            old_frame.bp <= old_frame.sbp <= old(self)@.frame.bp,
        ensures
            final(self).wf(),
            final(self)@ == old(self)@.leave(old_frame),
    {
        self.stack.truncate(self.frame.bp);
        self.frame = old_frame;
    }

    /// Pushes the cells of `params` in order and returns the length the stack
    /// had before. Fails, and changes nothing, when they do not fit.
    pub fn push_params(&mut self, params: &[Value]) -> (res: Trap<usize>)
        requires
            old(self).wf(),
        ensures
            final(self).wf(),
            old(self)@.space() < params@.len() ==> res == Trap::<usize>::Err(
                TrapKind::StackOverflow,
            ) && final(self)@ == old(self)@,
            old(self)@.space() >= params@.len() ==> res == Trap::<usize>::Ok(
                old(self)@.len() as usize,
            ) && final(self)@ == old(self)@.with_cells(old(self)@.cells + cells_of(params@)),
    {
        let len = self.check_overflow(params.len())?;
        let ghost before = self.stack@;
        let mut idx: usize = 0;
        while idx < params.len()
            invariant
                idx <= params@.len(),
                len + params@.len() <= self.limit,
                self.stack@ == before + cells_of(params@.take(idx as int)),
                before.len() == len,
                self.frame == old(self).frame,
                self.limit == old(self).limit,
                self.frame.sbp <= len,
            decreases params@.len() - idx,
        {
            self.stack.push(StackValue::from(params[idx]));
            idx = idx + 1;
            assert(self.stack@ =~= before + cells_of(params@.take(idx as int)));
        }
        assert(params@.take(idx as int) =~= params@);
        Ok(len)
    }

    /// Pushes the given cells in order. Fails, and changes nothing, when
    /// they do not fit.
    pub fn push_cells(&mut self, cells: &Vec<StackValue>) -> (res: Trap<()>)
        requires
            old(self).wf(),
        ensures
            final(self).wf(),
            old(self)@.space() < cells@.len() ==> res == Trap::<()>::Err(TrapKind::StackOverflow)
                && final(self)@ == old(self)@,
            old(self)@.space() >= cells@.len() ==> res == Trap::<()>::Ok(()) && final(self)@
                == old(self)@.with_cells(old(self)@.cells + cells@),
    {
        let len = self.check_overflow(cells.len())?;
        let ghost before = self.stack@;
        let mut idx: usize = 0;
        while idx < cells.len()
            invariant
                idx <= cells@.len(),
                len + cells@.len() <= self.limit,
                self.stack@ == before + cells@.take(idx as int),
                before.len() == len,
                self.frame == old(self).frame,
                self.limit == old(self).limit,
                self.frame.sbp <= len,
            decreases cells@.len() - idx,
        {
            self.stack.push(cells[idx]);
            idx = idx + 1;
            assert(self.stack@ =~= before + cells@.take(idx as int));
        }
        assert(cells@.take(idx as int) =~= cells@);
        Ok(())
    }

    /// Removes the `count` topmost operands of the current frame. Fails, and
    /// changes nothing, when the frame holds fewer.
    pub fn drop_values(&mut self, count: u32) -> (res: Trap<()>)
        requires
            old(self).wf(),
        ensures
            final(self).wf(),
            old(self)@.frame_size() < count ==> res == Trap::<()>::Err(TrapKind::StackUnderflow)
                && final(self)@ == old(self)@,
            old(self)@.frame_size() >= count ==> res == Trap::<()>::Ok(()) && final(self)@ == old(self)@.truncate(old(self)@.len() - count),
    {
        let size = self.frame_size();
        if size < count as usize {
            return Err(TrapKind::StackUnderflow);
        }
        let new_len = self.stack.len() - count as usize;
        self.stack.truncate(new_len);
        Ok(())
    }

    /// Copies the top operand into slot `local` of the current frame.
    #[inline]
    pub fn tee_local(&mut self, local: LocalIdx) -> (res: Trap<()>)
        requires
            old(self).wf(),
        ensures
            final(self).wf(),
            res == if old(self)@.frame_size() == 0 {
                Trap::<()>::Err(TrapKind::StackUnderflow)
            } else if local >= old(self)@.local_count() {
                Err(TrapKind::StackOverflow)
            } else {
                Ok(())
            },
            final(self)@ == if res is Ok {
                old(self)@.set_slot(local as int, old(self)@.top())
            } else {
                old(self)@
            },
    {
        let val = self.top_val()?;
        if local as usize >= self.frame.sbp - self.frame.bp {
            return Err(TrapKind::StackOverflow);
        }
        let idx = self.frame.bp + local as usize;
        self.stack[idx] = val;
        Ok(())
    }

    /// Pops the top operand into slot `local` of the current frame.
    #[inline]
    pub fn set_local(&mut self, local: LocalIdx) -> (res: Trap<()>)
        requires
            old(self).wf(),
        ensures
            final(self).wf(),
            res == if old(self)@.frame_size() == 0 {
                Trap::<()>::Err(TrapKind::StackUnderflow)
            } else if local >= old(self)@.local_count() {
                Err(TrapKind::StackOverflow)
            } else {
                Ok(())
            },
            final(self)@ == if res is Ok {
                old(self)@.set_slot(local as int, old(self)@.top()).pop()
            } else {
                old(self)@
            },
    {
        let val = self.top_val()?;
        if local as usize >= self.frame.sbp - self.frame.bp {
            return Err(TrapKind::StackOverflow);
        }
        let idx = self.frame.bp + local as usize;
        self.stack[idx] = val;
        self.stack.pop();
        Ok(())
    }

    /// Pushes a copy of slot `local` of the current frame.
    #[inline]
    pub fn get_local(&mut self, local: LocalIdx) -> (res: Trap<()>)
        requires
            old(self).wf(),
        ensures
            final(self).wf(),
            res == if local >= old(self)@.local_count() || old(self)@.space() == 0 {
                Trap::<()>::Err(TrapKind::StackOverflow)
            } else {
                Ok(())
            },
            final(self)@ == if res is Ok {
                old(self)@.push(old(self)@.slots()[local as int])
            } else {
                old(self)@
            },
    {
        if local as usize >= self.frame.sbp - self.frame.bp {
            return Err(TrapKind::StackOverflow);
        }
        let idx = self.frame.bp + local as usize;
        let val = self.stack[idx];
        self.push_val(val)
    }

    /// Writes local `local` of the running function: local 0 lives in `l0`,
    /// every other local in its slot. Fails, and changes nothing, when the
    /// frame has no such local.
    #[inline]
    pub fn set_local_val(&mut self, local: LocalIdx, val: StackValue, l0: &mut StackValue) -> (res:
        Trap<()>)
        requires
            old(self).wf(),
        ensures
            final(self).wf(),
            res == if local < old(self)@.local_count() {
                Trap::<()>::Ok(())
            } else {
                Err(TrapKind::StackOverflow)
            },
            res is Ok ==> final(self)@.locals(*final(l0)) == old(self)@.locals(*old(l0)).update(
                local as int,
                val,
            ),
            res is Ok ==> final(self)@ == if local == 0 {
                old(self)@
            } else {
                old(self)@.set_slot(local as int, val)
            },
            res is Ok && local != 0 ==> *final(l0) == *old(l0),
            res is Err ==> final(self)@ == old(self)@ && *final(l0) == *old(l0),
    {
        if local as usize >= self.frame.sbp - self.frame.bp {
            return Err(TrapKind::StackOverflow);
        }
        if local == 0 {
            *l0 = val;
            assert(self@.locals(*l0) =~= old(self)@.locals(*old(l0)).update(0, val));
            return Ok(());
        }
        let idx = self.frame.bp + local as usize;
        self.stack[idx] = val;
        assert(self@.locals(*l0) =~= old(self)@.locals(*old(l0)).update(local as int, val));
        Ok(())
    }

    /// Reads local `local` of the running function: local 0 lives in `l0`,
    /// every other local in its slot.
    #[inline]
    pub fn get_local_val(&self, local: LocalIdx, l0: &StackValue) -> (res: Trap<StackValue>)
        requires
            self.wf(),
        ensures
            res == if local < self@.local_count() {
                Trap::<StackValue>::Ok(self@.locals(*l0)[local as int])
            } else {
                Err(TrapKind::StackOverflow)
            },
    {
        if local as usize >= self.frame.sbp - self.frame.bp {
            return Err(TrapKind::StackOverflow);
        }
        if local == 0 {
            return Ok(*l0);
        }
        let idx = self.frame.bp + local as usize;
        Ok(self.stack[idx])
    }

    /// Pushes one cell. Fails, and changes nothing, when the stack is full.
    #[inline]
    pub fn push_val(&mut self, val: StackValue) -> (res: Trap<()>)
        requires
            old(self).wf(),
        ensures
            final(self).wf(),
            old(self)@.space() == 0 ==> res == Trap::<()>::Err(TrapKind::StackOverflow) && final(self)@ == old(self)@,
            old(self)@.space() > 0 ==> res == Trap::<()>::Ok(()) && final(self)@ == old(self)@.push(val),
    {
        if self.stack.len() >= self.limit {
            return Err(TrapKind::StackOverflow);
        }
        self.stack.push(val);
        Ok(())
    }

    /// Pops one operand and reads it at the given type.
    pub fn pop_typed(&mut self, val_type: ValueType) -> (res: Trap<Value>)
        requires
            old(self).wf(),
        ensures
            final(self).wf(),
            old(self)@.frame_size() == 0 ==> res == Trap::<Value>::Err(TrapKind::StackUnderflow)
                && final(self)@ == old(self)@,
            old(self)@.frame_size() > 0 ==> res == Trap::<Value>::Ok(
                value_of(old(self)@.top(), val_type),
            ) && final(self)@ == old(self)@.pop(),
    {
        let cell = self.pop_val()?;
        Ok(cell.to_value(val_type))
    }

    /// Pops one operand. Fails, and changes nothing, when the current frame
    /// holds none.
    #[inline]
    pub fn pop_val(&mut self) -> (res: Trap<StackValue>)
        requires
            old(self).wf(),
        ensures
            final(self).wf(),
            old(self)@.frame_size() == 0 ==> res == Trap::<StackValue>::Err(
                TrapKind::StackUnderflow,
            ) && final(self)@ == old(self)@,
            old(self)@.frame_size() > 0 ==> res == Trap::<StackValue>::Ok(old(self)@.top())
                && final(self)@ == old(self)@.pop(),
    {
        if self.stack.len() == self.frame.sbp {
            return Err(TrapKind::StackUnderflow);
        }
        let val = self.stack.pop();
        Ok(val.unwrap())
    }

    /// The top operand of the current frame.
    #[inline]
    pub fn top_val(&self) -> (res: Trap<StackValue>)
        requires
            self.wf(),
        ensures
            res == if self@.frame_size() == 0 {
                Trap::<StackValue>::Err(TrapKind::StackUnderflow)
            } else {
                Ok(self@.top())
            },
    {
        let len = self.stack.len();
        if len == self.frame.sbp {
            return Err(TrapKind::StackUnderflow);
        }
        Ok(self.stack[len - 1])
    }
}

impl Stack {
    /// Applies `op` to the top operand and replaces it with the result.
    /// Fails with `StackUnderflow` when the current frame holds no operand,
    /// and with the trap of `op` when it raises one; a call that fails
    /// changes nothing.
    #[inline]
    pub fn unop<F>(&mut self, op: F) -> (res: Trap<()>) where
        F: FnOnce(StackValue) -> Trap<StackValue>,

        requires
            old(self).wf(),
            old(self)@.frame_size() > 0 ==> op.requires((old(self)@.top(),)),
        ensures
            final(self).wf(),
            old(self)@.frame_size() == 0 ==> res == Trap::<()>::Err(TrapKind::StackUnderflow)
                && final(self)@ == old(self)@,
            old(self)@.frame_size() > 0 ==> exists|out: Trap<StackValue>| #[trigger]
                op.ensures((old(self)@.top(),), out) && old(self)@.replaced(
                    1,
                    out,
                    res,
                    final(self)@,
                ),
    {
        let val = self.top_val()?;
        match op(val) {
            Ok(out) => {
                let at = self.stack.len() - 1;
                self.stack[at] = out;
                assert(self.stack@ =~= old(self).stack@.take(at as int).push(out));
                Ok(())
            },
            Err(trap) => Err(trap),
        }
    }

    /// Applies `op` to the two topmost operands, the deeper one first, and
    /// replaces them with the result. Fails with `StackUnderflow` when the
    /// current frame holds fewer than two operands, and with the trap of
    /// `op` when it raises one; a call that fails changes nothing.
    #[inline]
    pub fn binop<F>(&mut self, op: F) -> (res: Trap<()>) where
        F: FnOnce(StackValue, StackValue) -> Trap<StackValue>,

        requires
            old(self).wf(),
            old(self)@.frame_size() > 1 ==> op.requires(
                (old(self)@.cells[old(self)@.len() - 2], old(self)@.top()),
            ),
        ensures
            final(self).wf(),
            old(self)@.frame_size() < 2 ==> res == Trap::<()>::Err(TrapKind::StackUnderflow)
                && final(self)@ == old(self)@,
            old(self)@.frame_size() > 1 ==> exists|out: Trap<StackValue>| #[trigger]
                op.ensures((old(self)@.cells[old(self)@.len() - 2], old(self)@.top()), out)
                    && old(self)@.replaced(2, out, res, final(self)@),
    {
        if self.frame_size() < 2 {
            return Err(TrapKind::StackUnderflow);
        }
        let len = self.stack.len();
        let right = self.stack[len - 1];
        let left = self.stack[len - 2];
        match op(left, right) {
            Ok(out) => {
                self.stack.pop();
                self.stack[len - 2] = out;
                assert(self.stack@ =~= old(self).stack@.take(len - 2).push(out));
                Ok(())
            },
            Err(trap) => Err(trap),
        }
    }
}

impl Default for Stack {
    fn default() -> (s: Stack)
        ensures
            s@ == StackView::empty(DEFAULT_STACK_LIMIT as nat),
            s.wf(),
    {
        Self::new()
    }
}

impl StackValue {
    /// Reads the cell at the given type.
    pub fn to_value(self, val_type: ValueType) -> (val: Value)
        ensures
            val == value_of(self, val_type),
    {
        match val_type {
            ValueType::I32 => Value::I32(#[verifier::truncate] (self.0 as i32)),
            ValueType::I64 => Value::I64(#[verifier::truncate] (self.0 as i64)),
            ValueType::F32 => Value::F32(#[verifier::truncate] (self.0 as u32)),
            ValueType::F64 => Value::F64(self.0),
        }
    }
}

impl From<Value> for StackValue {
    fn from(val: Value) -> (cell: StackValue) {
        match val {
            Value::I32(v) => StackValue(v as u64),
            Value::I64(v) => StackValue(v as u64),
            Value::F32(v) => StackValue(v as u64),
            Value::F64(v) => StackValue(v),
        }
    }
}

impl vstd::std_specs::convert::FromSpecImpl<Value> for StackValue {
    open spec fn obeys_from_spec() -> bool {
        true
    }

    open spec fn from_spec(val: Value) -> StackValue {
        cell_of(val)
    }
}

/// A number that can be read from a cell: the cell is cut to the width of
/// the number and read at its signedness.
pub trait FromValue: Sized {
    spec fn value_spec(val: StackValue) -> Self;

    fn from_value(val: StackValue) -> (res: Self)
        ensures
            res == Self::value_spec(val),
    ;
}

/// A stack that takes and gives numbers of the type `T`. A number is
/// pushed as the cell that holds its two's complement value, sign-extended
/// to 64 bits.
pub trait FromStack<T>: Sized + View<V = StackView> {
    /// The cell that holds a number.
    spec fn cell(val: T) -> StackValue;

    /// The number that a cell holds.
    spec fn value(cell: StackValue) -> T;

    /// Pushes a number. Fails, and changes nothing, when the stack is full.
    fn push(&mut self, val: T) -> (res: Trap<()>)
        requires
            old(self)@.wf(),
        ensures
            final(self)@.wf(),
            old(self)@.space() == 0 ==> res == Trap::<()>::Err(TrapKind::StackOverflow) && final(self)@ == old(self)@,
            old(self)@.space() > 0 ==> res == Trap::<()>::Ok(()) && final(self)@ == old(self)@.push(Self::cell(val)),
    ;

    /// Pops a number. Fails, and changes nothing, when the current frame
    /// holds no operand.
    fn pop(&mut self) -> (res: Trap<T>)
        requires
            old(self)@.wf(),
        ensures
            final(self)@.wf(),
            old(self)@.frame_size() == 0 ==> res == Trap::<T>::Err(TrapKind::StackUnderflow)
                && final(self)@ == old(self)@,
            old(self)@.frame_size() > 0 ==> res == Trap::<T>::Ok(Self::value(old(self)@.top()))
                && final(self)@ == old(self)@.pop(),
    ;

    /// Pops two numbers and gives the deeper one first. Fails, and changes
    /// nothing, when the current frame holds fewer than two operands.
    fn pop_pair(&mut self) -> (res: Trap<(T, T)>)
        requires
            old(self)@.wf(),
        ensures
            final(self)@.wf(),
            old(self)@.frame_size() < 2 ==> res == Trap::<(T, T)>::Err(TrapKind::StackUnderflow)
                && final(self)@ == old(self)@,
            old(self)@.frame_size() > 1 ==> res == Trap::<(T, T)>::Ok(
                (
                    Self::value(old(self)@.cells[old(self)@.len() - 2]),
                    Self::value(old(self)@.top()),
                ),
            ) && final(self)@ == old(self)@.pop().pop(),
    ;
}

impl FromValue for i8 {
    open spec fn value_spec(val: StackValue) -> i8 {
        val.0 as i8
    }

    fn from_value(val: StackValue) -> (res: i8) {
        #[verifier::truncate]
        (val.0 as i8)
    }
}

impl From<i8> for StackValue {
    fn from(other: i8) -> (cell: StackValue) {
        StackValue(
            #[verifier::truncate]
            (other as u64),
        )
    }
}

impl vstd::std_specs::convert::FromSpecImpl<i8> for StackValue {
    open spec fn obeys_from_spec() -> bool {
        true
    }

    open spec fn from_spec(other: i8) -> StackValue {
        StackValue(other as u64)
    }
}

impl FromStack<i8> for Stack {
    open spec fn cell(val: i8) -> StackValue {
        StackValue(val as u64)
    }

    open spec fn value(cell: StackValue) -> i8 {
        cell.0 as i8
    }

    #[inline]
    fn push(&mut self, val: i8) -> (res: Trap<()>) {
        self.push_val(StackValue::from(val))
    }

    #[inline]
    fn pop(&mut self) -> (res: Trap<i8>) {
        let cell = self.pop_val()?;
        Ok(<i8 as FromValue>::from_value(cell))
    }

    fn pop_pair(&mut self) -> (res: Trap<(i8, i8)>) {
        if self.frame_size() < 2 {
            return Err(TrapKind::StackUnderflow);
        }
        let right = self.pop_val()?;
        let left = self.pop_val()?;
        Ok((<i8 as FromValue>::from_value(left), <i8 as FromValue>::from_value(right)))
    }
}

impl FromValue for u8 {
    open spec fn value_spec(val: StackValue) -> u8 {
        val.0 as u8
    }

    fn from_value(val: StackValue) -> (res: u8) {
        #[verifier::truncate]
        (val.0 as u8)
    }
}

impl From<u8> for StackValue {
    fn from(other: u8) -> (cell: StackValue) {
        StackValue(
            other as u64,
        )
    }
}

impl vstd::std_specs::convert::FromSpecImpl<u8> for StackValue {
    open spec fn obeys_from_spec() -> bool {
        true
    }

    open spec fn from_spec(other: u8) -> StackValue {
        StackValue(other as u64)
    }
}

impl FromStack<u8> for Stack {
    open spec fn cell(val: u8) -> StackValue {
        StackValue(val as u64)
    }

    open spec fn value(cell: StackValue) -> u8 {
        cell.0 as u8
    }

    #[inline]
    fn push(&mut self, val: u8) -> (res: Trap<()>) {
        self.push_val(StackValue::from(val))
    }

    #[inline]
    fn pop(&mut self) -> (res: Trap<u8>) {
        let cell = self.pop_val()?;
        Ok(<u8 as FromValue>::from_value(cell))
    }

    fn pop_pair(&mut self) -> (res: Trap<(u8, u8)>) {
        if self.frame_size() < 2 {
            return Err(TrapKind::StackUnderflow);
        }
        let right = self.pop_val()?;
        let left = self.pop_val()?;
        Ok((<u8 as FromValue>::from_value(left), <u8 as FromValue>::from_value(right)))
    }
}

impl FromValue for i16 {
    open spec fn value_spec(val: StackValue) -> i16 {
        val.0 as i16
    }

    fn from_value(val: StackValue) -> (res: i16) {
        #[verifier::truncate]
        (val.0 as i16)
    }
}

impl From<i16> for StackValue {
    fn from(other: i16) -> (cell: StackValue) {
        StackValue(
            #[verifier::truncate]
            (other as u64),
        )
    }
}

impl vstd::std_specs::convert::FromSpecImpl<i16> for StackValue {
    open spec fn obeys_from_spec() -> bool {
        true
    }

    open spec fn from_spec(other: i16) -> StackValue {
        StackValue(other as u64)
    }
}

impl FromStack<i16> for Stack {
    open spec fn cell(val: i16) -> StackValue {
        StackValue(val as u64)
    }

    open spec fn value(cell: StackValue) -> i16 {
        cell.0 as i16
    }

    #[inline]
    fn push(&mut self, val: i16) -> (res: Trap<()>) {
        self.push_val(StackValue::from(val))
    }

    #[inline]
    fn pop(&mut self) -> (res: Trap<i16>) {
        let cell = self.pop_val()?;
        Ok(<i16 as FromValue>::from_value(cell))
    }

    fn pop_pair(&mut self) -> (res: Trap<(i16, i16)>) {
        if self.frame_size() < 2 {
            return Err(TrapKind::StackUnderflow);
        }
        let right = self.pop_val()?;
        let left = self.pop_val()?;
        Ok((<i16 as FromValue>::from_value(left), <i16 as FromValue>::from_value(right)))
    }
}

impl FromValue for u16 {
    open spec fn value_spec(val: StackValue) -> u16 {
        val.0 as u16
    }

    fn from_value(val: StackValue) -> (res: u16) {
        #[verifier::truncate]
        (val.0 as u16)
    }
}

impl From<u16> for StackValue {
    fn from(other: u16) -> (cell: StackValue) {
        StackValue(
            other as u64,
        )
    }
}

impl vstd::std_specs::convert::FromSpecImpl<u16> for StackValue {
    open spec fn obeys_from_spec() -> bool {
        true
    }

    open spec fn from_spec(other: u16) -> StackValue {
        StackValue(other as u64)
    }
}

impl FromStack<u16> for Stack {
    open spec fn cell(val: u16) -> StackValue {
        StackValue(val as u64)
    }

    open spec fn value(cell: StackValue) -> u16 {
        cell.0 as u16
    }

    #[inline]
    fn push(&mut self, val: u16) -> (res: Trap<()>) {
        self.push_val(StackValue::from(val))
    }

    #[inline]
    fn pop(&mut self) -> (res: Trap<u16>) {
        let cell = self.pop_val()?;
        Ok(<u16 as FromValue>::from_value(cell))
    }

    fn pop_pair(&mut self) -> (res: Trap<(u16, u16)>) {
        if self.frame_size() < 2 {
            return Err(TrapKind::StackUnderflow);
        }
        let right = self.pop_val()?;
        let left = self.pop_val()?;
        Ok((<u16 as FromValue>::from_value(left), <u16 as FromValue>::from_value(right)))
    }
}

impl FromValue for i32 {
    open spec fn value_spec(val: StackValue) -> i32 {
        val.0 as i32
    }

    fn from_value(val: StackValue) -> (res: i32) {
        #[verifier::truncate]
        (val.0 as i32)
    }
}

impl From<i32> for StackValue {
    fn from(other: i32) -> (cell: StackValue) {
        StackValue(
            #[verifier::truncate]
            (other as u64),
        )
    }
}

impl vstd::std_specs::convert::FromSpecImpl<i32> for StackValue {
    open spec fn obeys_from_spec() -> bool {
        true
    }

    open spec fn from_spec(other: i32) -> StackValue {
        StackValue(other as u64)
    }
}

impl FromStack<i32> for Stack {
    open spec fn cell(val: i32) -> StackValue {
        StackValue(val as u64)
    }

    open spec fn value(cell: StackValue) -> i32 {
        cell.0 as i32
    }

    #[inline]
    fn push(&mut self, val: i32) -> (res: Trap<()>) {
        self.push_val(StackValue::from(val))
    }

    #[inline]
    fn pop(&mut self) -> (res: Trap<i32>) {
        let cell = self.pop_val()?;
        Ok(<i32 as FromValue>::from_value(cell))
    }

    fn pop_pair(&mut self) -> (res: Trap<(i32, i32)>) {
        if self.frame_size() < 2 {
            return Err(TrapKind::StackUnderflow);
        }
        let right = self.pop_val()?;
        let left = self.pop_val()?;
        Ok((<i32 as FromValue>::from_value(left), <i32 as FromValue>::from_value(right)))
    }
}

impl FromValue for u32 {
    open spec fn value_spec(val: StackValue) -> u32 {
        val.0 as u32
    }

    fn from_value(val: StackValue) -> (res: u32) {
        #[verifier::truncate]
        (val.0 as u32)
    }
}

impl From<u32> for StackValue {
    fn from(other: u32) -> (cell: StackValue) {
        StackValue(
            other as u64,
        )
    }
}

impl vstd::std_specs::convert::FromSpecImpl<u32> for StackValue {
    open spec fn obeys_from_spec() -> bool {
        true
    }

    open spec fn from_spec(other: u32) -> StackValue {
        StackValue(other as u64)
    }
}

impl FromStack<u32> for Stack {
    open spec fn cell(val: u32) -> StackValue {
        StackValue(val as u64)
    }

    open spec fn value(cell: StackValue) -> u32 {
        cell.0 as u32
    }

    #[inline]
    fn push(&mut self, val: u32) -> (res: Trap<()>) {
        self.push_val(StackValue::from(val))
    }

    #[inline]
    fn pop(&mut self) -> (res: Trap<u32>) {
        let cell = self.pop_val()?;
        Ok(<u32 as FromValue>::from_value(cell))
    }

    fn pop_pair(&mut self) -> (res: Trap<(u32, u32)>) {
        if self.frame_size() < 2 {
            return Err(TrapKind::StackUnderflow);
        }
        let right = self.pop_val()?;
        let left = self.pop_val()?;
        Ok((<u32 as FromValue>::from_value(left), <u32 as FromValue>::from_value(right)))
    }
}

impl FromValue for i64 {
    open spec fn value_spec(val: StackValue) -> i64 {
        val.0 as i64
    }

    fn from_value(val: StackValue) -> (res: i64) {
        #[verifier::truncate]
        (val.0 as i64)
    }
}

impl From<i64> for StackValue {
    fn from(other: i64) -> (cell: StackValue) {
        StackValue(
            #[verifier::truncate]
            (other as u64),
        )
    }
}

impl vstd::std_specs::convert::FromSpecImpl<i64> for StackValue {
    open spec fn obeys_from_spec() -> bool {
        true
    }

    open spec fn from_spec(other: i64) -> StackValue {
        StackValue(other as u64)
    }
}

impl FromStack<i64> for Stack {
    open spec fn cell(val: i64) -> StackValue {
        StackValue(val as u64)
    }

    open spec fn value(cell: StackValue) -> i64 {
        cell.0 as i64
    }

    #[inline]
    fn push(&mut self, val: i64) -> (res: Trap<()>) {
        self.push_val(StackValue::from(val))
    }

    #[inline]
    fn pop(&mut self) -> (res: Trap<i64>) {
        let cell = self.pop_val()?;
        Ok(<i64 as FromValue>::from_value(cell))
    }

    fn pop_pair(&mut self) -> (res: Trap<(i64, i64)>) {
        if self.frame_size() < 2 {
            return Err(TrapKind::StackUnderflow);
        }
        let right = self.pop_val()?;
        let left = self.pop_val()?;
        Ok((<i64 as FromValue>::from_value(left), <i64 as FromValue>::from_value(right)))
    }
}

impl FromValue for u64 {
    open spec fn value_spec(val: StackValue) -> u64 {
        val.0 as u64
    }

    fn from_value(val: StackValue) -> (res: u64) {
        val.0
    }
}

impl From<u64> for StackValue {
    fn from(other: u64) -> (cell: StackValue) {
        StackValue(
            other,
        )
    }
}

impl vstd::std_specs::convert::FromSpecImpl<u64> for StackValue {
    open spec fn obeys_from_spec() -> bool {
        true
    }

    open spec fn from_spec(other: u64) -> StackValue {
        StackValue(other as u64)
    }
}

impl FromStack<u64> for Stack {
    open spec fn cell(val: u64) -> StackValue {
        StackValue(val as u64)
    }

    open spec fn value(cell: StackValue) -> u64 {
        cell.0 as u64
    }

    #[inline]
    fn push(&mut self, val: u64) -> (res: Trap<()>) {
        self.push_val(StackValue::from(val))
    }

    #[inline]
    fn pop(&mut self) -> (res: Trap<u64>) {
        let cell = self.pop_val()?;
        Ok(<u64 as FromValue>::from_value(cell))
    }

    fn pop_pair(&mut self) -> (res: Trap<(u64, u64)>) {
        if self.frame_size() < 2 {
            return Err(TrapKind::StackUnderflow);
        }
        let right = self.pop_val()?;
        let left = self.pop_val()?;
        Ok((<u64 as FromValue>::from_value(left), <u64 as FromValue>::from_value(right)))
    }
}

} // verus!
