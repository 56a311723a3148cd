//! Translates the instructions of a function body into a block tree.
//!
//! The translator keeps the operands of the source program as a stack of
//! inputs. An instruction that consumes operands takes them from that stack
//! and composes them into a new input or into a statement of the block that
//! is being built. An operand is evaluated when it is consumed. So that no
//! statement overtakes an operand that the source program computed before
//! it, every operand that is still on the stack when a statement is appended
//! is first written to a slot of its own behind the locals of the function,
//! one slot for each place of the stack, and read from there afterwards. A
//! block hands its result over in the slot of the place where its operands
//! start, whichever way the block is left.
use vstd::prelude::*;

use crate::error::{Error, TrapKind};
use crate::function::{BodyView, Function, FunctionView, HostFunction};
use crate::kernel::{BinOp, UnOp};
use crate::module::{DecodedFunction, DecodedModule};
use crate::op::OpCode;
use crate::stack::{cell_of, StackValue};
use crate::tree::{Args, Block, BlockKind, BlockView, Eval, EvalView, Input, Op};
use crate::value::{FuncAddr, FunctionType, Value, ValueType};

verus! {

/// How deep the blocks of a function may nest unless the compiler is made
/// with another bound.
pub const DEFAULT_MAX_DEPTH: u32 = 1024;

/// How the translator treats an instruction.
#[derive(Debug, Clone, Copy)]
pub enum Shape {
    /// A control, call, parametric or local instruction.
    Special,
    /// An operator kernel with one operand.
    Unary(UnOp),
    /// An operator kernel with two operands.
    Binary(BinOp),
    /// A constant.
    Const(StackValue),
    /// An operation outside the kernels that takes this many operands and
    /// yields a value.
    Value(u8),
    /// An operation outside the kernels that takes this many operands and
    /// yields nothing.
    Effect(u8),
}

/// The shape of an instruction.
pub open spec fn shape(op: OpCode) -> Shape {
    match op {
        OpCode::Unreachable => Shape::Special,
        OpCode::Nop => Shape::Special,
        OpCode::Block(_) => Shape::Special,
        OpCode::Loop(_) => Shape::Special,
        OpCode::If(_) => Shape::Special,
        OpCode::Else => Shape::Special,
        OpCode::End => Shape::Special,
        OpCode::Br(_) => Shape::Special,
        OpCode::BrIf(_) => Shape::Special,
        OpCode::BrTable(_, _) => Shape::Special,
        OpCode::Return => Shape::Special,
        OpCode::Call(_) => Shape::Special,
        OpCode::CallIndirect(_, _) => Shape::Special,
        OpCode::Drop => Shape::Special,
        OpCode::Select => Shape::Special,
        OpCode::GetLocal(_) => Shape::Special,
        OpCode::SetLocal(_) => Shape::Special,
        OpCode::TeeLocal(_) => Shape::Special,
        OpCode::GetGlobal(_) => Shape::Value(0),
        OpCode::SetGlobal(_) => Shape::Effect(1),
        OpCode::I32Load(_, _) => Shape::Value(1),
        OpCode::I64Load(_, _) => Shape::Value(1),
        OpCode::F32Load(_, _) => Shape::Value(1),
        OpCode::F64Load(_, _) => Shape::Value(1),
        OpCode::I32Load8S(_, _) => Shape::Value(1),
        OpCode::I32Load8U(_, _) => Shape::Value(1),
        OpCode::I32Load16S(_, _) => Shape::Value(1),
        OpCode::I32Load16U(_, _) => Shape::Value(1),
        OpCode::I64Load8S(_, _) => Shape::Value(1),
        OpCode::I64Load8U(_, _) => Shape::Value(1),
        OpCode::I64Load16S(_, _) => Shape::Value(1),
        OpCode::I64Load16U(_, _) => Shape::Value(1),
        OpCode::I64Load32S(_, _) => Shape::Value(1),
        OpCode::I64Load32U(_, _) => Shape::Value(1),
        OpCode::I32Store(_, _) => Shape::Effect(2),
        OpCode::I64Store(_, _) => Shape::Effect(2),
        OpCode::F32Store(_, _) => Shape::Effect(2),
        OpCode::F64Store(_, _) => Shape::Effect(2),
        OpCode::I32Store8(_, _) => Shape::Effect(2),
        OpCode::I32Store16(_, _) => Shape::Effect(2),
        OpCode::I64Store8(_, _) => Shape::Effect(2),
        OpCode::I64Store16(_, _) => Shape::Effect(2),
        OpCode::I64Store32(_, _) => Shape::Effect(2),
        OpCode::CurrentMemory(_) => Shape::Value(0),
        OpCode::GrowMemory(_) => Shape::Value(1),
        OpCode::I32Const(val) => Shape::Const(cell_of(Value::I32(val))),
        OpCode::I64Const(val) => Shape::Const(cell_of(Value::I64(val))),
        OpCode::F32Const(bits) => Shape::Const(cell_of(Value::F32(bits))),
        OpCode::F64Const(bits) => Shape::Const(cell_of(Value::F64(bits))),
        OpCode::I32Eqz => Shape::Unary(UnOp::I32Eqz),
        OpCode::I32Eq => Shape::Binary(BinOp::I32Eq),
        OpCode::I32Ne => Shape::Binary(BinOp::I32Ne),
        OpCode::I32LtS => Shape::Binary(BinOp::I32LtS),
        OpCode::I32LtU => Shape::Binary(BinOp::I32LtU),
        OpCode::I32GtS => Shape::Binary(BinOp::I32GtS),
        OpCode::I32GtU => Shape::Binary(BinOp::I32GtU),
        OpCode::I32LeS => Shape::Binary(BinOp::I32LeS),
        OpCode::I32LeU => Shape::Binary(BinOp::I32LeU),
        OpCode::I32GeS => Shape::Binary(BinOp::I32GeS),
        OpCode::I32GeU => Shape::Binary(BinOp::I32GeU),
        OpCode::I64Eqz => Shape::Unary(UnOp::I64Eqz),
        OpCode::I64Eq => Shape::Binary(BinOp::I64Eq),
        OpCode::I64Ne => Shape::Binary(BinOp::I64Ne),
        OpCode::I64LtS => Shape::Binary(BinOp::I64LtS),
        OpCode::I64LtU => Shape::Binary(BinOp::I64LtU),
        OpCode::I64GtS => Shape::Binary(BinOp::I64GtS),
        OpCode::I64GtU => Shape::Binary(BinOp::I64GtU),
        OpCode::I64LeS => Shape::Binary(BinOp::I64LeS),
        OpCode::I64LeU => Shape::Binary(BinOp::I64LeU),
        OpCode::I64GeS => Shape::Binary(BinOp::I64GeS),
        OpCode::I64GeU => Shape::Binary(BinOp::I64GeU),
        OpCode::F32Eq => Shape::Value(2),
        OpCode::F32Ne => Shape::Value(2),
        OpCode::F32Lt => Shape::Value(2),
        OpCode::F32Gt => Shape::Value(2),
        OpCode::F32Le => Shape::Value(2),
        OpCode::F32Ge => Shape::Value(2),
        OpCode::F64Eq => Shape::Value(2),
        OpCode::F64Ne => Shape::Value(2),
        OpCode::F64Lt => Shape::Value(2),
        OpCode::F64Gt => Shape::Value(2),
        OpCode::F64Le => Shape::Value(2),
        OpCode::F64Ge => Shape::Value(2),
        OpCode::I32Clz => Shape::Unary(UnOp::I32Clz),
        OpCode::I32Ctz => Shape::Unary(UnOp::I32Ctz),
        OpCode::I32Popcnt => Shape::Unary(UnOp::I32Popcnt),
        OpCode::I32Add => Shape::Binary(BinOp::I32Add),
        OpCode::I32Sub => Shape::Binary(BinOp::I32Sub),
        OpCode::I32Mul => Shape::Binary(BinOp::I32Mul),
        OpCode::I32DivS => Shape::Binary(BinOp::I32DivS),
        OpCode::I32DivU => Shape::Binary(BinOp::I32DivU),
        OpCode::I32RemS => Shape::Binary(BinOp::I32RemS),
        OpCode::I32RemU => Shape::Binary(BinOp::I32RemU),
        OpCode::I32And => Shape::Binary(BinOp::I32And),
        OpCode::I32Or => Shape::Binary(BinOp::I32Or),
        OpCode::I32Xor => Shape::Binary(BinOp::I32Xor),
        OpCode::I32Shl => Shape::Binary(BinOp::I32Shl),
        OpCode::I32ShrS => Shape::Binary(BinOp::I32ShrS),
        OpCode::I32ShrU => Shape::Binary(BinOp::I32ShrU),
        OpCode::I32Rotl => Shape::Binary(BinOp::I32Rotl),
        OpCode::I32Rotr => Shape::Binary(BinOp::I32Rotr),
        OpCode::I64Clz => Shape::Unary(UnOp::I64Clz),
        OpCode::I64Ctz => Shape::Unary(UnOp::I64Ctz),
        OpCode::I64Popcnt => Shape::Unary(UnOp::I64Popcnt),
        OpCode::I64Add => Shape::Binary(BinOp::I64Add),
        OpCode::I64Sub => Shape::Binary(BinOp::I64Sub),
        OpCode::I64Mul => Shape::Binary(BinOp::I64Mul),
        OpCode::I64DivS => Shape::Binary(BinOp::I64DivS),
        OpCode::I64DivU => Shape::Binary(BinOp::I64DivU),
        OpCode::I64RemS => Shape::Binary(BinOp::I64RemS),
        OpCode::I64RemU => Shape::Binary(BinOp::I64RemU),
        OpCode::I64And => Shape::Binary(BinOp::I64And),
        OpCode::I64Or => Shape::Binary(BinOp::I64Or),
        OpCode::I64Xor => Shape::Binary(BinOp::I64Xor),
        OpCode::I64Shl => Shape::Binary(BinOp::I64Shl),
        OpCode::I64ShrS => Shape::Binary(BinOp::I64ShrS),
        OpCode::I64ShrU => Shape::Binary(BinOp::I64ShrU),
        OpCode::I64Rotl => Shape::Binary(BinOp::I64Rotl),
        OpCode::I64Rotr => Shape::Binary(BinOp::I64Rotr),
        OpCode::F32Abs => Shape::Value(1),
        OpCode::F32Neg => Shape::Value(1),
        OpCode::F32Ceil => Shape::Value(1),
        OpCode::F32Floor => Shape::Value(1),
        OpCode::F32Trunc => Shape::Value(1),
        OpCode::F32Nearest => Shape::Value(1),
        OpCode::F32Sqrt => Shape::Value(1),
        OpCode::F32Add => Shape::Value(2),
        OpCode::F32Sub => Shape::Value(2),
        OpCode::F32Mul => Shape::Value(2),
        OpCode::F32Div => Shape::Value(2),
        OpCode::F32Min => Shape::Value(2),
        OpCode::F32Max => Shape::Value(2),
        OpCode::F32Copysign => Shape::Value(2),
        OpCode::F64Abs => Shape::Value(1),
        OpCode::F64Neg => Shape::Value(1),
        OpCode::F64Ceil => Shape::Value(1),
        OpCode::F64Floor => Shape::Value(1),
        OpCode::F64Trunc => Shape::Value(1),
        OpCode::F64Nearest => Shape::Value(1),
        OpCode::F64Sqrt => Shape::Value(1),
        OpCode::F64Add => Shape::Value(2),
        OpCode::F64Sub => Shape::Value(2),
        OpCode::F64Mul => Shape::Value(2),
        OpCode::F64Div => Shape::Value(2),
        OpCode::F64Min => Shape::Value(2),
        OpCode::F64Max => Shape::Value(2),
        OpCode::F64Copysign => Shape::Value(2),
        OpCode::I32WrapI64 => Shape::Value(1),
        OpCode::I32TruncSF32 => Shape::Value(1),
        OpCode::I32TruncUF32 => Shape::Value(1),
        OpCode::I32TruncSF64 => Shape::Value(1),
        OpCode::I32TruncUF64 => Shape::Value(1),
        OpCode::I64ExtendSI32 => Shape::Value(1),
        OpCode::I64ExtendUI32 => Shape::Value(1),
        OpCode::I64TruncSF32 => Shape::Value(1),
        OpCode::I64TruncUF32 => Shape::Value(1),
        OpCode::I64TruncSF64 => Shape::Value(1),
        OpCode::I64TruncUF64 => Shape::Value(1),
        OpCode::F32ConvertSI32 => Shape::Value(1),
        OpCode::F32ConvertUI32 => Shape::Value(1),
        OpCode::F32ConvertSI64 => Shape::Value(1),
        OpCode::F32ConvertUI64 => Shape::Value(1),
        OpCode::F32DemoteF64 => Shape::Value(1),
        OpCode::F64ConvertSI32 => Shape::Value(1),
        OpCode::F64ConvertUI32 => Shape::Value(1),
        OpCode::F64ConvertSI64 => Shape::Value(1),
        OpCode::F64ConvertUI64 => Shape::Value(1),
        OpCode::F64PromoteF32 => Shape::Value(1),
        OpCode::I32ReinterpretF32 => Shape::Value(1),
        OpCode::I64ReinterpretF64 => Shape::Value(1),
        OpCode::F32ReinterpretI32 => Shape::Value(1),
        OpCode::F64ReinterpretI64 => Shape::Value(1),
    }
}

pub fn classify(op: &OpCode) -> (res: Shape)
    ensures
        res == shape(*op),
{
    match op {
        OpCode::Unreachable => Shape::Special,
        OpCode::Nop => Shape::Special,
        OpCode::Block(_) => Shape::Special,
        OpCode::Loop(_) => Shape::Special,
        OpCode::If(_) => Shape::Special,
        OpCode::Else => Shape::Special,
        OpCode::End => Shape::Special,
        OpCode::Br(_) => Shape::Special,
        OpCode::BrIf(_) => Shape::Special,
        OpCode::BrTable(_, _) => Shape::Special,
        OpCode::Return => Shape::Special,
        OpCode::Call(_) => Shape::Special,
        OpCode::CallIndirect(_, _) => Shape::Special,
        OpCode::Drop => Shape::Special,
        OpCode::Select => Shape::Special,
        OpCode::GetLocal(_) => Shape::Special,
        OpCode::SetLocal(_) => Shape::Special,
        OpCode::TeeLocal(_) => Shape::Special,
        OpCode::GetGlobal(_) => Shape::Value(0),
        OpCode::SetGlobal(_) => Shape::Effect(1),
        OpCode::I32Load(_, _) => Shape::Value(1),
        OpCode::I64Load(_, _) => Shape::Value(1),
        OpCode::F32Load(_, _) => Shape::Value(1),
        OpCode::F64Load(_, _) => Shape::Value(1),
        OpCode::I32Load8S(_, _) => Shape::Value(1),
        OpCode::I32Load8U(_, _) => Shape::Value(1),
        OpCode::I32Load16S(_, _) => Shape::Value(1),
        OpCode::I32Load16U(_, _) => Shape::Value(1),
        OpCode::I64Load8S(_, _) => Shape::Value(1),
        OpCode::I64Load8U(_, _) => Shape::Value(1),
        OpCode::I64Load16S(_, _) => Shape::Value(1),
        OpCode::I64Load16U(_, _) => Shape::Value(1),
        OpCode::I64Load32S(_, _) => Shape::Value(1),
        OpCode::I64Load32U(_, _) => Shape::Value(1),
        OpCode::I32Store(_, _) => Shape::Effect(2),
        OpCode::I64Store(_, _) => Shape::Effect(2),
        OpCode::F32Store(_, _) => Shape::Effect(2),
        OpCode::F64Store(_, _) => Shape::Effect(2),
        OpCode::I32Store8(_, _) => Shape::Effect(2),
        OpCode::I32Store16(_, _) => Shape::Effect(2),
        OpCode::I64Store8(_, _) => Shape::Effect(2),
        OpCode::I64Store16(_, _) => Shape::Effect(2),
        OpCode::I64Store32(_, _) => Shape::Effect(2),
        OpCode::CurrentMemory(_) => Shape::Value(0),
        OpCode::GrowMemory(_) => Shape::Value(1),
        OpCode::I32Const(val) => Shape::Const(StackValue::from(Value::I32(*val))),
        OpCode::I64Const(val) => Shape::Const(StackValue::from(Value::I64(*val))),
        OpCode::F32Const(bits) => Shape::Const(StackValue::from(Value::F32(*bits))),
        OpCode::F64Const(bits) => Shape::Const(StackValue::from(Value::F64(*bits))),
        OpCode::I32Eqz => Shape::Unary(UnOp::I32Eqz),
        OpCode::I32Eq => Shape::Binary(BinOp::I32Eq),
        OpCode::I32Ne => Shape::Binary(BinOp::I32Ne),
        OpCode::I32LtS => Shape::Binary(BinOp::I32LtS),
        OpCode::I32LtU => Shape::Binary(BinOp::I32LtU),
        OpCode::I32GtS => Shape::Binary(BinOp::I32GtS),
        OpCode::I32GtU => Shape::Binary(BinOp::I32GtU),
        OpCode::I32LeS => Shape::Binary(BinOp::I32LeS),
        OpCode::I32LeU => Shape::Binary(BinOp::I32LeU),
        OpCode::I32GeS => Shape::Binary(BinOp::I32GeS),
        OpCode::I32GeU => Shape::Binary(BinOp::I32GeU),
        OpCode::I64Eqz => Shape::Unary(UnOp::I64Eqz),
        OpCode::I64Eq => Shape::Binary(BinOp::I64Eq),
        OpCode::I64Ne => Shape::Binary(BinOp::I64Ne),
        OpCode::I64LtS => Shape::Binary(BinOp::I64LtS),
        OpCode::I64LtU => Shape::Binary(BinOp::I64LtU),
        OpCode::I64GtS => Shape::Binary(BinOp::I64GtS),
        OpCode::I64GtU => Shape::Binary(BinOp::I64GtU),
        OpCode::I64LeS => Shape::Binary(BinOp::I64LeS),
        OpCode::I64LeU => Shape::Binary(BinOp::I64LeU),
        OpCode::I64GeS => Shape::Binary(BinOp::I64GeS),
        OpCode::I64GeU => Shape::Binary(BinOp::I64GeU),
        OpCode::F32Eq => Shape::Value(2),
        OpCode::F32Ne => Shape::Value(2),
        OpCode::F32Lt => Shape::Value(2),
        OpCode::F32Gt => Shape::Value(2),
        OpCode::F32Le => Shape::Value(2),
        OpCode::F32Ge => Shape::Value(2),
        OpCode::F64Eq => Shape::Value(2),
        OpCode::F64Ne => Shape::Value(2),
        OpCode::F64Lt => Shape::Value(2),
        OpCode::F64Gt => Shape::Value(2),
        OpCode::F64Le => Shape::Value(2),
        OpCode::F64Ge => Shape::Value(2),
        OpCode::I32Clz => Shape::Unary(UnOp::I32Clz),
        OpCode::I32Ctz => Shape::Unary(UnOp::I32Ctz),
        OpCode::I32Popcnt => Shape::Unary(UnOp::I32Popcnt),
        OpCode::I32Add => Shape::Binary(BinOp::I32Add),
        OpCode::I32Sub => Shape::Binary(BinOp::I32Sub),
        OpCode::I32Mul => Shape::Binary(BinOp::I32Mul),
        OpCode::I32DivS => Shape::Binary(BinOp::I32DivS),
        OpCode::I32DivU => Shape::Binary(BinOp::I32DivU),
        OpCode::I32RemS => Shape::Binary(BinOp::I32RemS),
        OpCode::I32RemU => Shape::Binary(BinOp::I32RemU),
        OpCode::I32And => Shape::Binary(BinOp::I32And),
        OpCode::I32Or => Shape::Binary(BinOp::I32Or),
        OpCode::I32Xor => Shape::Binary(BinOp::I32Xor),
        OpCode::I32Shl => Shape::Binary(BinOp::I32Shl),
        OpCode::I32ShrS => Shape::Binary(BinOp::I32ShrS),
        OpCode::I32ShrU => Shape::Binary(BinOp::I32ShrU),
        OpCode::I32Rotl => Shape::Binary(BinOp::I32Rotl),
        OpCode::I32Rotr => Shape::Binary(BinOp::I32Rotr),
        OpCode::I64Clz => Shape::Unary(UnOp::I64Clz),
        OpCode::I64Ctz => Shape::Unary(UnOp::I64Ctz),
        OpCode::I64Popcnt => Shape::Unary(UnOp::I64Popcnt),
        OpCode::I64Add => Shape::Binary(BinOp::I64Add),
        OpCode::I64Sub => Shape::Binary(BinOp::I64Sub),
        OpCode::I64Mul => Shape::Binary(BinOp::I64Mul),
        OpCode::I64DivS => Shape::Binary(BinOp::I64DivS),
        OpCode::I64DivU => Shape::Binary(BinOp::I64DivU),
        OpCode::I64RemS => Shape::Binary(BinOp::I64RemS),
        OpCode::I64RemU => Shape::Binary(BinOp::I64RemU),
        OpCode::I64And => Shape::Binary(BinOp::I64And),
        OpCode::I64Or => Shape::Binary(BinOp::I64Or),
        OpCode::I64Xor => Shape::Binary(BinOp::I64Xor),
        OpCode::I64Shl => Shape::Binary(BinOp::I64Shl),
        OpCode::I64ShrS => Shape::Binary(BinOp::I64ShrS),
        OpCode::I64ShrU => Shape::Binary(BinOp::I64ShrU),
        OpCode::I64Rotl => Shape::Binary(BinOp::I64Rotl),
        OpCode::I64Rotr => Shape::Binary(BinOp::I64Rotr),
        OpCode::F32Abs => Shape::Value(1),
        OpCode::F32Neg => Shape::Value(1),
        OpCode::F32Ceil => Shape::Value(1),
        OpCode::F32Floor => Shape::Value(1),
        OpCode::F32Trunc => Shape::Value(1),
        OpCode::F32Nearest => Shape::Value(1),
        OpCode::F32Sqrt => Shape::Value(1),
        OpCode::F32Add => Shape::Value(2),
        OpCode::F32Sub => Shape::Value(2),
        OpCode::F32Mul => Shape::Value(2),
        OpCode::F32Div => Shape::Value(2),
        OpCode::F32Min => Shape::Value(2),
        OpCode::F32Max => Shape::Value(2),
        OpCode::F32Copysign => Shape::Value(2),
        OpCode::F64Abs => Shape::Value(1),
        OpCode::F64Neg => Shape::Value(1),
        OpCode::F64Ceil => Shape::Value(1),
        OpCode::F64Floor => Shape::Value(1),
        OpCode::F64Trunc => Shape::Value(1),
        OpCode::F64Nearest => Shape::Value(1),
        OpCode::F64Sqrt => Shape::Value(1),
        OpCode::F64Add => Shape::Value(2),
        OpCode::F64Sub => Shape::Value(2),
        OpCode::F64Mul => Shape::Value(2),
        OpCode::F64Div => Shape::Value(2),
        OpCode::F64Min => Shape::Value(2),
        OpCode::F64Max => Shape::Value(2),
        OpCode::F64Copysign => Shape::Value(2),
        OpCode::I32WrapI64 => Shape::Value(1),
        OpCode::I32TruncSF32 => Shape::Value(1),
        OpCode::I32TruncUF32 => Shape::Value(1),
        OpCode::I32TruncSF64 => Shape::Value(1),
        OpCode::I32TruncUF64 => Shape::Value(1),
        OpCode::I64ExtendSI32 => Shape::Value(1),
        OpCode::I64ExtendUI32 => Shape::Value(1),
        OpCode::I64TruncSF32 => Shape::Value(1),
        OpCode::I64TruncUF32 => Shape::Value(1),
        OpCode::I64TruncSF64 => Shape::Value(1),
        OpCode::I64TruncUF64 => Shape::Value(1),
        OpCode::F32ConvertSI32 => Shape::Value(1),
        OpCode::F32ConvertUI32 => Shape::Value(1),
        OpCode::F32ConvertSI64 => Shape::Value(1),
        OpCode::F32ConvertUI64 => Shape::Value(1),
        OpCode::F32DemoteF64 => Shape::Value(1),
        OpCode::F64ConvertSI32 => Shape::Value(1),
        OpCode::F64ConvertUI32 => Shape::Value(1),
        OpCode::F64ConvertSI64 => Shape::Value(1),
        OpCode::F64ConvertUI64 => Shape::Value(1),
        OpCode::F64PromoteF32 => Shape::Value(1),
        OpCode::I32ReinterpretF32 => Shape::Value(1),
        OpCode::I64ReinterpretF64 => Shape::Value(1),
        OpCode::F32ReinterpretI32 => Shape::Value(1),
        OpCode::F64ReinterpretI64 => Shape::Value(1),
    }
}

/// The number of parameters of a function, and whether it has a result.
pub struct Signature {
    pub params: nat,
    pub has_result: bool,
}

pub open spec fn signature(func_type: FunctionType) -> Signature {
    Signature { params: func_type.params@.len(), has_result: func_type.ret_type is Some }
}

/// What one function body is translated against.
pub struct Unit {
    /// The instructions of the body.
    pub code: Seq<OpCode>,
    /// The signature of each function of the module, by its index.
    pub funcs: Seq<Signature>,
    /// The signature of each function type of the module, by its index.
    pub types: Seq<Signature>,
    /// The address that function 0 of the module gets in the function table.
    pub base: u32,
    /// Whether the function that is translated has a result.
    pub has_result: bool,
    /// How deep blocks may nest.
    pub max_depth: u32,
    /// The number of parameters and declared locals of the function: the
    /// slots of the operands follow them.
    pub locals: nat,
}

/// An open block of the source program: its kind, the height of the
/// operand stack where its own operands start, and whether it has a result.
#[derive(Debug, Clone, Copy)]
pub struct Scope {
    pub kind: BlockKind,
    pub base: usize,
    pub result: bool,
}

/// How far the translation of a block has come: its statements so far, the
/// operands of the source program, the greatest height that the operand
/// stack has had, and the place in the code.
pub struct Progress {
    pub eval: Seq<EvalView>,
    pub values: Seq<Input>,
    pub high: nat,
    pub pc: int,
}

pub open spec fn larger(a: nat, b: nat) -> nat {
    if a < b {
        b
    } else {
        a
    }
}

/// The arguments of a call as the operand stack holds them, first to last.
pub open spec fn args_of(values: Seq<Input>) -> Args
    decreases values.len(),
{
    if values.len() == 0 {
        Args::Nil
    } else {
        Args::Cons(values[0], Box::new(args_of(values.skip(1))))
    }
}

/// A value of the operand stack that stands for an operation.
pub open spec fn operation(op: Op) -> Input {
    Input::Op(Box::new(op))
}

/// The local that is the slot of the place `at` of the operand stack.
pub open spec fn slot(unit: Unit, at: int) -> u32 {
    (unit.locals + at) as u32
}

/// The operand at the place `at` once it has been written to its slot.
pub open spec fn settled(unit: Unit, at: int) -> Input {
    Input::Local(slot(unit, at))
}

/// Every operand is in its slot.
pub open spec fn all_settled(unit: Unit, values: Seq<Input>) -> bool {
    forall|at: int| 0 <= at < values.len() ==> #[trigger] values[at] == settled(unit, at)
}

/// The statements and the operands once every operand from the place
/// `from` on that is not in its slot has been written there, lowest first.
pub open spec fn flush(unit: Unit, eval: Seq<EvalView>, values: Seq<Input>, from: int) -> (
    Seq<EvalView>,
    Seq<Input>,
)
    decreases values.len() - from,
{
    if from < 0 || from >= values.len() {
        (eval, values)
    } else if values[from] == settled(unit, from) {
        flush(unit, eval, values, from + 1)
    } else {
        flush(
            unit,
            eval.push(EvalView::SetLocal(slot(unit, from), values[from])),
            values.update(from, settled(unit, from)),
            from + 1,
        )
    }
}

/// The statements and the operands once every operand is in its slot.
pub open spec fn spill(unit: Unit, eval: Seq<EvalView>, values: Seq<Input>) -> (
    Seq<EvalView>,
    Seq<Input>,
) {
    flush(unit, eval, values, 0)
}

/// After a flush every operand is in its slot, and there are as many as
/// before.
pub proof fn lemma_flush(unit: Unit, eval: Seq<EvalView>, values: Seq<Input>, from: int)
    requires
        0 <= from,
        forall|at: int| 0 <= at < from && at < values.len() ==> #[trigger] values[at] == settled(
            unit,
            at,
        ),
    ensures
        all_settled(unit, flush(unit, eval, values, from).1),
        flush(unit, eval, values, from).1.len() == values.len(),
    decreases values.len() - from,
{
    if from < values.len() {
        if values[from] == settled(unit, from) {
            lemma_flush(unit, eval, values, from + 1);
        } else {
            lemma_flush(
                unit,
                eval.push(EvalView::SetLocal(slot(unit, from), values[from])),
                values.update(from, settled(unit, from)),
                from + 1,
            );
        }
    }
}

/// The block that a branch of the given depth goes to.
pub open spec fn target(scopes: Seq<Scope>, depth: u32) -> Scope {
    scopes[scopes.len() - 1 - depth]
}

/// Whether a branch of the given depth carries a value: it does to the end
/// of a block that has a result, and never to the head of a loop.
pub open spec fn carries(scopes: Seq<Scope>, depth: u32) -> bool {
    target(scopes, depth).kind != BlockKind::Loop && target(scopes, depth).result
}

/// Whether every depth of a branch table names an open block and carries
/// no value.
pub open spec fn plain_targets(scopes: Seq<Scope>, table: Seq<u32>) -> bool {
    forall|i: int|
        0 <= i < table.len() ==> (#[trigger] table[i]) < scopes.len() && !carries(scopes, table[i])
}

/// The statements that leave the function: the operands below the result
/// are written to their slots, then the function returns the top operand
/// if it has a result.
pub open spec fn leave_function(unit: Unit, base: int, eval: Seq<EvalView>, values: Seq<Input>) -> Option<
    (Seq<EvalView>, Seq<Input>, bool),
> {
    if unit.has_result {
        if values.len() <= base {
            None
        } else {
            let (eval, rest) = spill(unit, eval, values.drop_last());
            Some((eval.push(EvalView::Return(Some(values.last()))), rest, true))
        }
    } else {
        let (eval, rest) = spill(unit, eval, values);
        Some((eval.push(EvalView::Return(None)), rest, true))
    }
}

/// The statements of a branch. A branch to the block of the function
/// leaves the function. A branch that carries a value writes it to the
/// slot where the operands of its target start.
pub open spec fn jump(
    unit: Unit,
    scopes: Seq<Scope>,
    eval: Seq<EvalView>,
    values: Seq<Input>,
    depth: u32,
) -> Option<(Seq<EvalView>, Seq<Input>, bool)> {
    let base = scopes.last().base as int;
    if depth >= scopes.len() {
        None
    } else if depth == scopes.len() - 1 {
        leave_function(unit, base, eval, values)
    } else if carries(scopes, depth) {
        if values.len() <= base || unit.locals + target(scopes, depth).base > u32::MAX {
            None
        } else {
            let (eval, rest) = spill(unit, eval, values.drop_last());
            Some(
                (
                    eval.push(
                        EvalView::SetLocal(
                            slot(unit, target(scopes, depth).base as int),
                            values.last(),
                        ),
                    ).push(EvalView::Br(depth)),
                    rest,
                    true,
                ),
            )
        }
    } else {
        let (eval, rest) = spill(unit, eval, values);
        Some((eval.push(EvalView::Br(depth)), rest, true))
    }
}

/// The statements of a conditional branch. Where the branch carries a
/// value, the value stays on the operand stack when the branch is not
/// taken.
pub open spec fn jump_if(
    unit: Unit,
    scopes: Seq<Scope>,
    eval: Seq<EvalView>,
    values: Seq<Input>,
    depth: u32,
) -> Option<(Seq<EvalView>, Seq<Input>, bool)> {
    let base = scopes.last().base as int;
    if depth >= scopes.len() || values.len() <= base {
        None
    } else if carries(scopes, depth) {
        if values.len() <= base + 1 || unit.locals + target(scopes, depth).base > u32::MAX
            || depth >= u32::MAX {
            None
        } else {
            let (eval, rest) = spill(unit, eval, values.drop_last());
            let top = settled(unit, rest.len() - 1);
            let taken = if depth == scopes.len() - 1 {
                seq![EvalView::Return(Some(top))]
            } else {
                seq![
                    EvalView::SetLocal(slot(unit, target(scopes, depth).base as int), top),
                    EvalView::Br((depth + 1) as u32),
                ]
            };
            Some(
                (
                    eval.push(
                        EvalView::If(
                            values.last(),
                            BlockView {
                                kind: BlockKind::If,
                                depth: scopes.len() as u32,
                                eval: taken,
                            },
                            None,
                        ),
                    ),
                    rest,
                    false,
                ),
            )
        }
    } else {
        let (eval, rest) = spill(unit, eval, values.drop_last());
        Some((eval.push(EvalView::BrIf(values.last(), depth)), rest, false))
    }
}

/// What an instruction that opens or closes no block adds to the
/// statements and does to the operands, and whether the code behind it is
/// dead. `None` where the instruction is invalid: it needs more operands
/// than its block has, or names a local, a function, a type or a block that
/// is not there.
///
/// An instruction that appends a statement first writes every operand that
/// stays on the stack to its slot, so that the statement does not overtake
/// it.
pub open spec fn simple(
    unit: Unit,
    scopes: Seq<Scope>,
    op: OpCode,
    eval: Seq<EvalView>,
    values: Seq<Input>,
) -> Option<(Seq<EvalView>, Seq<Input>, bool)> {
    let len = values.len() as int;
    let base = scopes.last().base as int;
    let own = len - base;
    match op {
        OpCode::Nop => Some((eval, values, false)),
        OpCode::Unreachable => {
            let (eval, rest) = spill(unit, eval, values);
            Some((eval.push(EvalView::Trap(TrapKind::Unreachable)), rest, true))
        },
        OpCode::Return => leave_function(unit, base, eval, values),
        OpCode::Br(depth) => jump(unit, scopes, eval, values, depth),
        OpCode::BrIf(depth) => jump_if(unit, scopes, eval, values, depth),
        OpCode::BrTable(table, default) => if own < 1 || default >= scopes.len() || carries(
            scopes,
            default,
        ) || !plain_targets(scopes, table@) {
            None
        } else {
            let (eval, rest) = spill(unit, eval, values.drop_last());
            Some((eval.push(EvalView::BrTable(values.last(), table@, default)), rest, true))
        },
        OpCode::Call(idx) => if idx >= unit.funcs.len() || unit.base + idx > u32::MAX || own
            < unit.funcs[idx as int].params {
            None
        } else {
            let sig = unit.funcs[idx as int];
            let rest = values.take(len - sig.params);
            let call = operation(
                Op::Call(
                    (unit.base + idx) as u32,
                    args_of(values.subrange(len - sig.params, len)),
                ),
            );
            if sig.has_result {
                Some((eval, rest.push(call), false))
            } else {
                let (eval, rest) = spill(unit, eval, rest);
                Some((eval.push(EvalView::Drop(call)), rest, false))
            }
        },
        OpCode::CallIndirect(idx, _) => if idx >= unit.types.len() || own
            < unit.types[idx as int].params + 1 {
            None
        } else {
            let sig = unit.types[idx as int];
            let (eval, all) = spill(unit, eval, values);
            let rest = all.take(len - sig.params - 1);
            let eval = eval.push(EvalView::Trap(TrapKind::NotImplemented));
            if sig.has_result {
                Some((eval, rest.push(settled(unit, rest.len() as int)), false))
            } else {
                Some((eval, rest, false))
            }
        },
        OpCode::Drop => if own < 1 {
            None
        } else {
            let (eval, rest) = spill(unit, eval, values.drop_last());
            Some((eval.push(EvalView::Drop(values.last())), rest, false))
        },
        OpCode::Select => if own < 3 {
            None
        } else {
            Some(
                (
                    eval,
                    values.take(len - 3).push(
                        operation(Op::Select(values[len - 3], values[len - 2], values[len - 1])),
                    ),
                    false,
                ),
            )
        },
        OpCode::GetLocal(idx) => if idx >= unit.locals {
            None
        } else {
            Some((eval, values.push(Input::Local(idx)), false))
        },
        OpCode::SetLocal(idx) => if own < 1 || idx >= unit.locals {
            None
        } else {
            let (eval, rest) = spill(unit, eval, values.drop_last());
            Some((eval.push(EvalView::SetLocal(idx, values.last())), rest, false))
        },
        OpCode::TeeLocal(idx) => if own < 1 || idx >= unit.locals {
            None
        } else {
            Some((eval, values.drop_last().push(operation(Op::Tee(idx, values.last()))), false))
        },
        _ => match shape(op) {
            Shape::Special => None,
            Shape::Unary(kind) => if own < 1 {
                None
            } else {
                Some(
                    (
                        eval,
                        values.drop_last().push(operation(Op::Unary(kind, values.last()))),
                        false,
                    ),
                )
            },
            Shape::Binary(kind) => if own < 2 {
                None
            } else {
                Some(
                    (
                        eval,
                        values.take(len - 2).push(
                            operation(Op::Binary(kind, values[len - 2], values[len - 1])),
                        ),
                        false,
                    ),
                )
            },
            Shape::Const(val) => Some((eval, values.push(Input::Const(val)), false)),
            Shape::Value(pops) => if own < pops {
                None
            } else {
                let (eval, all) = spill(unit, eval, values);
                let rest = all.take(len - pops);
                Some(
                    (
                        eval.push(EvalView::Trap(TrapKind::NotImplemented)),
                        rest.push(settled(unit, rest.len() as int)),
                        false,
                    ),
                )
            },
            Shape::Effect(pops) => if own < pops {
                None
            } else {
                let (eval, all) = spill(unit, eval, values);
                Some(
                    (eval.push(EvalView::Trap(TrapKind::NotImplemented)), all.take(len - pops), false),
                )
            },
        },
    }
}

/// What the instruction that closes a block adds to its statements, or
/// `None` where the operands that the block leaves are not exactly its
/// result. The block of the function returns its result; any other block
/// writes it to the slot where its operands start. Dead code adds nothing.
pub open spec fn close(
    unit: Unit,
    scopes: Seq<Scope>,
    eval: Seq<EvalView>,
    values: Seq<Input>,
    dead: bool,
) -> Option<Seq<EvalView>> {
    let scope = scopes.last();
    let own = values.len() - scope.base;
    if dead {
        Some(eval)
    } else if scope.result {
        if own != 1 {
            None
        } else if scopes.len() == 1 {
            Some(eval.push(EvalView::Return(Some(values.last()))))
        } else {
            Some(eval.push(EvalView::SetLocal(slot(unit, scope.base as int), values.last())))
        }
    } else {
        if own != 0 {
            None
        } else if scopes.len() == 1 {
            Some(eval.push(EvalView::Return(None)))
        } else {
            Some(eval)
        }
    }
}

/// The operands behind a block: the ones before it, all in their slots,
/// and its result in the slot that follows them.
pub open spec fn behind(unit: Unit, outer: Seq<Input>, result: bool) -> Seq<Input> {
    if result {
        outer.push(settled(unit, outer.len() as int))
    } else {
        outer
    }
}

/// The block whose scope is the innermost of `scopes` and whose first
/// instruction is at `pc`, the greatest height of the operand stack, and
/// the place of the instruction that closes the block: an `End`, or the
/// `Else` of an `If`. `None` where the code is invalid or nests deeper than
/// the unit allows.
pub open spec fn block_at(
    unit: Unit,
    scopes: Seq<Scope>,
    values: Seq<Input>,
    high: nat,
    dead: bool,
    pc: int,
) -> Option<(BlockView, nat, int)>
    decreases unit.code.len() - pc, 2nat,
{
    if scopes.len() == 0 || scopes.len() > unit.max_depth {
        None
    } else {
        match block_from(unit, scopes, Seq::empty(), values, high, dead, pc) {
            None => None,
            Some(done) => Some(
                (
                    BlockView {
                        kind: scopes.last().kind,
                        depth: (scopes.len() - 1) as u32,
                        eval: done.eval,
                    },
                    done.high,
                    done.pc,
                ),
            ),
        }
    }
}

/// The translation of the `Block` or `Loop` at `pc`: the operands before it
/// are written to their slots, the block follows as one statement, and its
/// result, if it has one, is the operand in the slot behind them. The
/// progress that comes back stands at the `End` that closes the block.
pub open spec fn nested_at(
    unit: Unit,
    scopes: Seq<Scope>,
    eval: Seq<EvalView>,
    values: Seq<Input>,
    high: nat,
    dead: bool,
    pc: int,
    kind: BlockKind,
    result: bool,
) -> Option<Progress>
    decreases unit.code.len() - pc, 0nat,
{
    if pc < 0 || pc >= unit.code.len() {
        None
    } else {
        let (eval, outer) = spill(unit, eval, values);
        let scope = Scope { kind, base: outer.len() as usize, result };
        match block_at(unit, scopes.push(scope), outer, high, dead, pc + 1) {
            None => None,
            Some((block, top, end)) => Some(
                Progress {
                    eval: eval.push(EvalView::Nested(block)),
                    values: behind(unit, outer, result),
                    high: larger(top, behind(unit, outer, result).len()),
                    pc: end,
                },
            ),
        }
    }
}

/// The translation of the `If` at `pc`. The condition is the top operand.
/// Both arms start from the operands below the condition, all in their
/// slots, and each arm writes its result to the slot that follows them.
/// The progress that comes back stands at the `End` that closes the `If`.
pub open spec fn if_at(
    unit: Unit,
    scopes: Seq<Scope>,
    eval: Seq<EvalView>,
    values: Seq<Input>,
    high: nat,
    dead: bool,
    pc: int,
    result: bool,
) -> Option<Progress>
    decreases unit.code.len() - pc, 0nat,
{
    if pc < 0 || pc >= unit.code.len() || scopes.len() == 0 || (!dead && values.len()
        <= scopes.last().base) {
        None
    } else {
        let cond = if dead {
            Input::Const(StackValue(0))
        } else {
            values.last()
        };
        let (eval, outer) = spill(
            unit,
            eval,
            if dead {
                values
            } else {
                values.drop_last()
            },
        );
        let scope = Scope { kind: BlockKind::If, base: outer.len() as usize, result };
        match block_at(unit, scopes.push(scope), outer, high, dead, pc + 1) {
            None => None,
            Some((then_block, top, mid)) => if !(pc < mid < unit.code.len()) {
                None
            } else if unit.code[mid] is Else {
                match block_at(
                    unit,
                    scopes.push(Scope { kind: BlockKind::Else, ..scope }),
                    outer,
                    top,
                    dead,
                    mid + 1,
                ) {
                    None => None,
                    Some((else_block, top, end)) => Some(
                        Progress {
                            eval: eval.push(EvalView::If(cond, then_block, Some(else_block))),
                            values: behind(unit, outer, result),
                            high: larger(top, behind(unit, outer, result).len()),
                            pc: end,
                        },
                    ),
                }
            } else if result {
                None
            } else {
                Some(
                    Progress {
                        eval: eval.push(EvalView::If(cond, then_block, None)),
                        values: outer,
                        high: top,
                        pc: mid,
                    },
                )
            },
        }
    }
}

/// The translation of a block continued at `pc`, with the statements and
/// the operands that the instructions before `pc` have left. Dead code,
/// which follows a statement that always leaves the block, is read for its
/// blocks only.
pub open spec fn block_from(
    unit: Unit,
    scopes: Seq<Scope>,
    eval: Seq<EvalView>,
    values: Seq<Input>,
    high: nat,
    dead: bool,
    pc: int,
) -> Option<Progress>
    decreases unit.code.len() - pc, 1nat,
{
    if pc < 0 || pc >= unit.code.len() || scopes.len() == 0 || unit.locals + values.len() + 1
        > u32::MAX || values.len() < scopes.last().base {
        None
    } else {
        match unit.code[pc] {
            OpCode::End => match close(unit, scopes, eval, values, dead) {
                None => None,
                Some(eval) => Some(Progress { eval, values, high, pc }),
            },
            OpCode::Else => if scopes.last().kind == BlockKind::If {
                match close(unit, scopes, eval, values, dead) {
                    None => None,
                    Some(eval) => Some(Progress { eval, values, high, pc }),
                }
            } else {
                None
            },
            OpCode::Block(result) => match nested_at(
                unit,
                scopes,
                eval,
                values,
                high,
                dead,
                pc,
                BlockKind::Block,
                result is Some,
            ) {
                None => None,
                Some(done) => if pc < done.pc < unit.code.len() {
                    block_from(unit, scopes, done.eval, done.values, done.high, dead, done.pc + 1)
                } else {
                    None
                },
            },
            OpCode::Loop(result) => match nested_at(
                unit,
                scopes,
                eval,
                values,
                high,
                dead,
                pc,
                BlockKind::Loop,
                result is Some,
            ) {
                None => None,
                Some(done) => if pc < done.pc < unit.code.len() {
                    block_from(unit, scopes, done.eval, done.values, done.high, dead, done.pc + 1)
                } else {
                    None
                },
            },
            OpCode::If(result) => match if_at(
                unit,
                scopes,
                eval,
                values,
                high,
                dead,
                pc,
                result is Some,
            ) {
                None => None,
                Some(done) => if pc < done.pc < unit.code.len() {
                    block_from(unit, scopes, done.eval, done.values, done.high, dead, done.pc + 1)
                } else {
                    None
                },
            },
            op => if dead {
                block_from(unit, scopes, eval, values, high, dead, pc + 1)
            } else {
                match simple(unit, scopes, op, eval, values) {
                    None => None,
                    Some((eval, values, dead)) => block_from(
                        unit,
                        scopes,
                        eval,
                        values,
                        larger(high, values.len()),
                        dead,
                        pc + 1,
                    ),
                }
            },
        }
    }
}

/// The scope of the block of the function itself.
pub open spec fn outermost(unit: Unit) -> Scope {
    Scope { kind: BlockKind::Block, base: 0, result: unit.has_result }
}

/// The block tree of a whole function body and the number of operand slots
/// that it uses: the block that starts at the first instruction, if the
/// `End` that closes it is the last instruction.
pub open spec fn body_of(unit: Unit) -> Option<(BlockView, nat)> {
    match block_at(unit, seq![outermost(unit)], Seq::empty(), 0, false, 0) {
        None => None,
        Some((block, high, end)) => if end + 1 == unit.code.len() {
            Some((block, high))
        } else {
            None
        },
    }
}

/// Taking operands off the top leaves the others in their slots.
proof fn lemma_take_settled(unit: Unit, values: Seq<Input>, count: int)
    requires
        all_settled(unit, values),
        0 <= count <= values.len(),
    ensures
        all_settled(unit, values.take(count)),
        all_settled(unit, values.take(count).push(settled(unit, count))),
{
}

/// No statement overtakes an operand: whenever an instruction appends a
/// statement, every operand that stays on the stack has been written to its
/// slot before, so the statement finds it as the source program computed
/// it.
pub proof fn statements_follow_operands(
    unit: Unit,
    scopes: Seq<Scope>,
    op: OpCode,
    eval: Seq<EvalView>,
    values: Seq<Input>,
)
    requires
        simple(unit, scopes, op, eval, values) is Some,
    ensures
        simple(unit, scopes, op, eval, values)->Some_0.0.len() > eval.len() ==> all_settled(
            unit,
            simple(unit, scopes, op, eval, values)->Some_0.1,
        ),
{
    let len = values.len() as int;
    lemma_flush(unit, eval, values, 0);
    if len > 0 {
        lemma_flush(unit, eval, values.drop_last(), 0);
    }
    match op {
        OpCode::Call(idx) => {
            let sig = unit.funcs[idx as int];
            lemma_flush(unit, eval, values.take(len - sig.params), 0);
        },
        OpCode::CallIndirect(idx, _) => {
            let sig = unit.types[idx as int];
            lemma_take_settled(unit, spill(unit, eval, values).1, len - sig.params - 1);
        },
        OpCode::Nop
        | OpCode::Unreachable
        | OpCode::Return
        | OpCode::Br(_)
        | OpCode::BrIf(_)
        | OpCode::BrTable(_, _)
        | OpCode::Drop
        | OpCode::Select
        | OpCode::GetLocal(_)
        | OpCode::SetLocal(_)
        | OpCode::TeeLocal(_) => {},
        _ => {
            match shape(op) {
                Shape::Value(pops) => {
                    lemma_take_settled(unit, spill(unit, eval, values).1, len - pops);
                },
                Shape::Effect(pops) => {
                    lemma_take_settled(unit, spill(unit, eval, values).1, len - pops);
                },
                _ => {},
            }
        },
    }
}

/// A write to a local comes behind every read of it that the source
/// program makes before: the statement that writes local `idx` finds each
/// operand that stays on the stack in its slot, and no slot is a local that
/// the source program can name.
pub proof fn writes_follow_reads(
    unit: Unit,
    scopes: Seq<Scope>,
    idx: u32,
    eval: Seq<EvalView>,
    values: Seq<Input>,
)
    requires
        simple(unit, scopes, OpCode::SetLocal(idx), eval, values) is Some,
        unit.locals + values.len() <= u32::MAX,
    ensures
        ({
            let (after, rest, dead) = simple(
                unit,
                scopes,
                OpCode::SetLocal(idx),
                eval,
                values,
            )->Some_0;
            &&& after.last() == EvalView::SetLocal(idx, values.last())
            &&& rest.len() == values.len() - 1
            &&& all_settled(unit, rest)
            &&& forall|at: int| 0 <= at < rest.len() ==> slot(unit, at) != idx
        }),
{
    lemma_flush(unit, eval, values.drop_last(), 0);
}

pub open spec fn signatures(funcs: Seq<DecodedFunction>) -> Seq<Signature> {
    Seq::new(funcs.len(), |i: int| signature(funcs[i].func_type))
}

pub open spec fn type_signatures(types: Seq<FunctionType>) -> Seq<Signature> {
    Seq::new(types.len(), |i: int| signature(types[i]))
}

/// What function `idx` of a module is translated against.
pub open spec fn unit_of(module: DecodedModule, idx: int, base: u32, max_depth: u32) -> Unit {
    Unit {
        code: module.functions@[idx].code@,
        funcs: signatures(module.functions@),
        types: type_signatures(module.types@),
        base,
        has_result: module.functions@[idx].func_type.ret_type is Some,
        max_depth,
        locals: module.functions@[idx].func_type.params@.len()
            + module.functions@[idx].locals@.len(),
    }
}

/// The function that function `idx` of a module becomes: a host function
/// if it is imported, else its translated body under its name and type,
/// with the number of operand slots that the body needs. `None` where its
/// code is invalid.
pub open spec fn translated(
    module: DecodedModule,
    idx: int,
    mod_idx: usize,
    base: u32,
    max_depth: u32,
) -> Option<FunctionView> {
    let func = module.functions@[idx];
    if func.is_imported {
        Some(
            FunctionView {
                name: func.name@,
                params: func.func_type.params@,
                ret_type: func.func_type.ret_type,
                body: BodyView::Host(HostFunction { mod_idx, func_idx: idx as usize }),
            },
        )
    } else {
        match body_of(unit_of(module, idx, base, max_depth)) {
            None => None,
            Some((run, high)) => Some(
                FunctionView {
                    name: func.name@,
                    params: func.func_type.params@,
                    ret_type: func.func_type.ret_type,
                    body: BodyView::Compiled { local_types: func.locals@, operands: high, run },
                },
            ),
        }
    }
}

/// Whether every function of the module can be translated.
pub open spec fn valid(module: DecodedModule, mod_idx: usize, base: u32, max_depth: u32) -> bool {
    &&& module.functions@.len() <= u32::MAX
    &&& forall|i: int|
        0 <= i < module.functions@.len() ==> (#[trigger] translated(
            module,
            i,
            mod_idx,
            base,
            max_depth,
        )) is Some
}

fn invalid(text: &str) -> (e: Error)
    ensures
        e is ValidationError,
{
    Error::ValidationError(text.to_owned())
}

/// The operands of the source program while a function is translated, the
/// open blocks, and the place in the code.
#[derive(Debug)]
pub struct State {
    pub values: Vec<Input>,
    /// The number of open blocks.
    pub depth: u32,
    pub pc: usize,
    /// The greatest height that the operand stack has had.
    pub high: usize,
    pub scopes: Vec<Scope>,
}

impl State {
    pub fn new() -> (s: State)
        ensures
            s.values@ == Seq::<Input>::empty(),
            s.depth == 0,
            s.pc == 0,
            s.high == 0,
            s.scopes@ == Seq::<Scope>::empty(),
    {
        State { values: Vec::new(), depth: 0, pc: 0, high: 0, scopes: Vec::new() }
    }

    /// Whether `after` is this state but for its operands.
    pub open spec fn same_place(&self, after: &State) -> bool {
        &&& after.depth == self.depth
        &&& after.pc == self.pc
        &&& after.high == self.high
        &&& after.scopes@ == self.scopes@
    }

    /// Takes the top operand. An empty stack makes the code invalid.
    pub fn pop(&mut self) -> (res: Result<Input, Error>)
        ensures
            old(self).same_place(final(self)),
            old(self).values@.len() == 0 ==> res is Err && res->Err_0 is ValidationError && final(self).values@ == old(self).values@,
            old(self).values@.len() > 0 ==> res == Result::<Input, Error>::Ok(
                old(self).values@.last(),
            ) && final(self).values@ == old(self).values@.drop_last(),
    {
        match self.values.pop() {
            Some(input) => Ok(input),
            None => Err(invalid("value stack empty")),
        }
    }

    pub fn push(&mut self, input: Input)
        ensures
            old(self).same_place(final(self)),
            final(self).values@ == old(self).values@.push(input),
    {
        self.values.push(input);
    }

    /// How many operands the innermost block has.
    fn own(&self) -> (n: usize)
        requires
            self.scopes@.len() > 0,
            self.scopes@.last().base <= self.values@.len(),
        ensures
            n == self.values@.len() - self.scopes@.last().base,
    {
        self.values.len() - self.scopes[self.scopes.len() - 1].base
    }

    /// Takes the `count` topmost operands as the arguments of a call.
    fn take_args(&mut self, count: usize) -> (args: Args)
        requires
            count <= old(self).values@.len(),
        ensures
            old(self).same_place(final(self)),
            final(self).values@ == old(self).values@.take(old(self).values@.len() - count),
            args == args_of(
                old(self).values@.subrange(
                    old(self).values@.len() - count,
                    old(self).values@.len() as int,
                ),
            ),
    {
        let ghost all = self.values@;
        let ghost len = all.len() as int;
        let mut args = Args::Nil;
        let mut taken: usize = 0;
        assert(all.subrange(len, len) =~= Seq::empty());
        assert(all.take(len) =~= all);
        while taken < count
            invariant
                taken <= count <= len,
                len == all.len(),
                old(self).same_place(self),
                self.values@ == all.take(len - taken),
                args == args_of(all.subrange(len - taken, len)),
            decreases count - taken,
        {
            let input = self.values.pop().unwrap();
            proof {
                let wider = all.subrange(len - taken - 1, len);
                assert(wider.skip(1) =~= all.subrange(len - taken, len));
                assert(wider[0] == input);
                assert(all.take(len - taken).drop_last() =~= all.take(len - taken - 1));
            }
            args = Args::Cons(input, Box::new(args));
            taken = taken + 1;
        }
        args
    }
}

/// Translates the functions of one module.
pub struct Compiler<'a> {
    module: &'a DecodedModule,
    compiled: Vec<Function>,
    func_idx: u32,
    ret_type: Option<ValueType>,
    pc_end: usize,
    locals: u32,
    mod_idx: usize,
    base: FuncAddr,
    max_depth: u32,
}

impl<'a> Compiler<'a> {
    pub closed spec fn module(&self) -> DecodedModule {
        *self.module
    }

    pub closed spec fn mod_idx(&self) -> usize {
        self.mod_idx
    }

    pub closed spec fn base(&self) -> u32 {
        self.base
    }

    pub closed spec fn max_depth(&self) -> u32 {
        self.max_depth
    }

    /// The functions translated so far.
    pub closed spec fn compiled(&self) -> Seq<Function> {
        self.compiled@
    }

    /// Whether a function is selected for translation.
    closed spec fn ready(&self) -> bool {
        &&& self.func_idx < self.module.functions@.len()
        &&& self.pc_end == self.module.functions@[self.func_idx as int].code@.len()
        &&& self.ret_type == self.module.functions@[self.func_idx as int].func_type.ret_type
        &&& self.locals == self.unit().locals
    }

    /// What the selected function is translated against.
    closed spec fn unit(&self) -> Unit {
        unit_of(*self.module, self.func_idx as int, self.base, self.max_depth)
    }

    /// Whether the state can take one more operand and every operand has a
    /// slot.
    closed spec fn fits(&self, state: &State) -> bool {
        &&& self.ready()
        &&& self.unit().locals + state.values@.len() + 1 <= u32::MAX
        &&& state.scopes@.len() > 0
        &&& state.scopes@.last().base <= state.values@.len()
    }

    /// A compiler for the functions of `module`, which is to be the module
    /// `mod_idx` of the registry and whose function 0 gets the address
    /// `base`.
    pub fn new(module: &'a DecodedModule, mod_idx: usize, base: FuncAddr) -> (c: Compiler<'a>)
        ensures
            c.module() == *module,
            c.mod_idx() == mod_idx,
            c.base() == base,
            c.max_depth() == DEFAULT_MAX_DEPTH,
            c.compiled() == Seq::<Function>::empty(),
    {
        Compiler {
            module,
            compiled: Vec::new(),
            func_idx: 0,
            ret_type: None,
            pc_end: 0,
            locals: 0,
            mod_idx,
            base,
            max_depth: DEFAULT_MAX_DEPTH,
        }
    }

    /// The same compiler with another bound on how deep blocks may nest.
    pub fn with_max_depth(self, max_depth: u32) -> (c: Compiler<'a>)
        ensures
            c.module() == self.module(),
            c.mod_idx() == self.mod_idx(),
            c.base() == self.base(),
            c.max_depth() == max_depth,
            c.compiled() == self.compiled(),
    {
        Compiler {
            module: self.module,
            compiled: self.compiled,
            func_idx: self.func_idx,
            ret_type: self.ret_type,
            pc_end: self.pc_end,
            locals: self.locals,
            mod_idx: self.mod_idx,
            base: self.base,
            max_depth,
        }
    }

    /// Translates every function of the module, in order. Fails with a
    /// validation error if one of them is invalid.
    pub fn compile(self) -> (res: Result<Vec<Function>, Error>)
        requires
            self.compiled() == Seq::<Function>::empty(),
        ensures
            valid(self.module(), self.mod_idx(), self.base(), self.max_depth()) ==> res is Ok
                && res->Ok_0@.len() == self.module().functions@.len() && forall|i: int|
                0 <= i < self.module().functions@.len() ==> Some((#[trigger] res->Ok_0@[i])@)
                    == translated(
                    self.module(),
                    i,
                    self.mod_idx(),
                    self.base(),
                    self.max_depth(),
                ),
            !valid(self.module(), self.mod_idx(), self.base(), self.max_depth()) ==> res is Err
                && res->Err_0 is ValidationError,
    {
        if self.module.functions.len() > u32::MAX as usize {
            return Err(invalid("too many functions"));
        }
        let len = self.module.functions.len() as u32;
        let ghost start = self;
        let mut this = self;
        let mut idx: u32 = 0;
        while idx < len
            invariant
                idx <= len,
                len == this.module.functions@.len(),
                start.module() == self.module(),
                start.mod_idx() == self.mod_idx(),
                start.base() == self.base(),
                start.max_depth() == self.max_depth(),
                this.module() == start.module(),
                this.mod_idx() == start.mod_idx(),
                this.base() == start.base(),
                this.max_depth() == start.max_depth(),
                this.compiled@.len() == idx,
                forall|i: int|
                    0 <= i < idx ==> Some((#[trigger] this.compiled@[i])@) == translated(
                        this.module(),
                        i,
                        this.mod_idx(),
                        this.base(),
                        this.max_depth(),
                    ),
            decreases len - idx,
        {
            let ghost before = this.compiled@;
            match this.compile_function(idx) {
                Ok(()) => {},
                Err(error) => {
                    assert(translated(
                        start.module(),
                        idx as int,
                        start.mod_idx(),
                        start.base(),
                        start.max_depth(),
                    ) is None);
                    assert(0 <= idx < start.module().functions@.len());
                    assert(!valid(
                        start.module(),
                        start.mod_idx(),
                        start.base(),
                        start.max_depth(),
                    ));
                    return Err(error);
                },
            }
            assert forall|i: int| 0 <= i < idx + 1 implies Some((#[trigger] this.compiled@[i])@)
                == translated(
                this.module(),
                i,
                this.mod_idx(),
                this.base(),
                this.max_depth(),
            ) by {
                if i < idx {
                    assert(this.compiled@[i] == before[i]);
                }
            }
            idx = idx + 1;
        }
        assert forall|i: int| 0 <= i < start.module().functions@.len() implies (
        #[trigger] translated(
            start.module(),
            i,
            start.mod_idx(),
            start.base(),
            start.max_depth(),
        )) is Some by {
            assert(Some(this.compiled@[i]@) == translated(
                this.module(),
                i,
                this.mod_idx(),
                this.base(),
                this.max_depth(),
            ));
        }
        Ok(this.compiled)
    }

    /// Translates function `func_idx` of the module and appends it to the
    /// functions translated so far.
    fn compile_function(&mut self, func_idx: u32) -> (res: Result<(), Error>)
        requires
            func_idx < old(self).module().functions@.len(),
        ensures
            final(self).module() == old(self).module(),
            final(self).mod_idx() == old(self).mod_idx(),
            final(self).base() == old(self).base(),
            final(self).max_depth() == old(self).max_depth(),
            match translated(
                old(self).module(),
                func_idx as int,
                old(self).mod_idx(),
                old(self).base(),
                old(self).max_depth(),
            ) {
                Some(func) => res is Ok && final(self).compiled().len() == old(self).compiled().len() + 1 && final(self).compiled().last()@ == func && final(self).compiled().drop_last() == old(self).compiled(),
                None => res is Err && res->Err_0 is ValidationError,
            },
    {
        let func = &self.module.functions[func_idx as usize];
        if func.is_imported {
            let host = Function::host(func, self.mod_idx, func_idx as usize);
            self.compiled.push(host);
            assert(self.compiled@.drop_last() =~= old(self).compiled@);
            return Ok(());
        }
        let limit = u32::MAX as usize;
        if func.func_type.params.len() >= limit || func.locals.len() >= limit
            - func.func_type.params.len() {
            return Err(invalid("too many locals"));
        }
        self.func_idx = func_idx;
        self.ret_type = func.func_type.ret_type;
        self.pc_end = func.code.len();
        self.locals = (func.func_type.params.len() + func.locals.len()) as u32;

        let mut state = State::new();
        let block = self.compile_block(
            &mut state,
            BlockKind::Block,
            func.func_type.ret_type.is_some(),
            false,
        )?;
        if state.pc + 1 != self.pc_end {
            return Err(invalid("code after the end of the function"));
        }
        let done = Function::new(func, state.high, block);
        self.compiled.push(done);
        assert(self.compiled@.drop_last() =~= old(self).compiled@);
        Ok(())
    }

    /// The local that is the slot of a place of the operand stack.
    fn slot(&self, at: usize) -> (idx: u32)
        requires
            self.ready(),
            self.unit().locals + at <= u32::MAX,
        ensures
            idx == slot(self.unit(), at as int),
    {
        self.locals + at as u32
    }

    /// Writes every operand that is not in its slot there, lowest first.
    fn flush(&self, block: &mut Block, state: &mut State)
        requires
            self.ready(),
            self.unit().locals + old(state).values@.len() <= u32::MAX,
        ensures
            old(state).same_place(final(state)),
            final(block)@.kind == old(block)@.kind,
            final(block)@.depth == old(block)@.depth,
            (final(block)@.eval, final(state).values@) == spill(
                self.unit(),
                old(block)@.eval,
                old(state).values@,
            ),
            final(state).values@.len() == old(state).values@.len(),
            all_settled(self.unit(), final(state).values@),
    {
        proof {
            lemma_flush(self.unit(), block@.eval, state.values@, 0);
        }
        let mut at: usize = 0;
        while at < state.values.len()
            invariant
                self.ready(),
                at <= state.values@.len(),
                state.values@.len() == old(state).values@.len(),
                self.unit().locals + state.values@.len() <= u32::MAX,
                old(state).same_place(state),
                block@.kind == old(block)@.kind,
                block@.depth == old(block)@.depth,
                flush(self.unit(), block@.eval, state.values@, at as int) == spill(
                    self.unit(),
                    old(block)@.eval,
                    old(state).values@,
                ),
            decreases state.values@.len() - at,
        {
            let idx = self.slot(at);
            let stays = match &state.values[at] {
                Input::Local(local) => *local == idx,
                _ => false,
            };
            if !stays {
                let mut operand = Input::Local(idx);
                core::mem::swap(&mut state.values[at], &mut operand);
                block.push(Eval::SetLocal(idx, operand));
            }
            at = at + 1;
        }
    }

    /// Sets the operands behind a block: the ones before it, all in their
    /// slots, and its result in the slot that follows them.
    fn settle(&self, state: &mut State, base: usize, result: bool)
        requires
            self.ready(),
            self.unit().locals + base + 1 <= u32::MAX,
        ensures
            old(state).same_place(final(state)),
            final(state).values@.len() == base + if result {
                1int
            } else {
                0int
            },
            forall|outer: Seq<Input>|
                outer.len() == base && all_settled(self.unit(), outer) ==> final(state).values@
                    == behind(self.unit(), outer, result),
    {
        state.values.truncate(0);
        let count = if result {
            base + 1
        } else {
            base
        };
        let mut at: usize = 0;
        while at < count
            invariant
                self.ready(),
                at <= count <= base + 1,
                self.unit().locals + base + 1 <= u32::MAX,
                state.depth == old(state).depth,
                state.pc == old(state).pc,
                state.scopes@ == old(state).scopes@,
                state.high == old(state).high,
                state.values@.len() == at,
                all_settled(self.unit(), state.values@),
            decreases count - at,
        {
            let idx = self.slot(at);
            state.values.push(Input::Local(idx));
            at = at + 1;
        }
        assert forall|outer: Seq<Input>|
            outer.len() == base && all_settled(self.unit(), outer) implies state.values@ == behind(
            self.unit(),
            outer,
            result,
        ) by {
            assert(state.values@ =~= behind(self.unit(), outer, result));
        }
    }

    /// Translates the block that starts at the current place, up to the
    /// instruction that closes it. The operands before the block are all
    /// in their slots, and stay as they are.
    #[verifier::rlimit(60)]
    fn compile_block(&self, state: &mut State, kind: BlockKind, result: bool, dead: bool) -> (res:
        Result<Block, Error>)
        requires
            self.ready(),
            all_settled(self.unit(), old(state).values@),
            old(state).depth == old(state).scopes@.len(),
        ensures
            match block_at(
                self.unit(),
                old(state).scopes@.push(
                    Scope { kind, base: old(state).values@.len() as usize, result },
                ),
                old(state).values@,
                old(state).high as nat,
                dead,
                old(state).pc as int,
            ) {
                Some((block, top, end)) => {
                    &&& res is Ok
                    &&& res->Ok_0@ == block
                    &&& final(state).values@ == old(state).values@
                    &&& final(state).scopes@ == old(state).scopes@
                    &&& final(state).depth == old(state).depth
                    &&& final(state).high == top
                    &&& final(state).pc == end
                    &&& old(state).pc <= end < self.unit().code.len()
                    &&& self.unit().locals + old(state).values@.len() + 1 <= u32::MAX
                    &&& (self.unit().code[end] is End || (kind == BlockKind::If
                        && self.unit().code[end] is Else))
                },
                None => res is Err && res->Err_0 is ValidationError,
            },
        decreases self.unit().code.len() - old(state).pc, 2nat,
    {
        let base = state.values.len();
        let scope = Scope { kind, base, result };
        if state.depth >= self.max_depth {
            return Err(invalid("blocks nest too deep"));
        }
        let depth = state.depth;
        let mut block = Block::new(kind, depth);
        state.scopes.push(scope);
        state.depth = depth + 1;
        let mut gone = dead;
        let ghost outer = old(state).values@;
        let ghost scopes = old(state).scopes@.push(scope);
        let ghost goal = block_from(
            self.unit(),
            scopes,
            Seq::empty(),
            outer,
            old(state).high as nat,
            dead,
            old(state).pc as int,
        );
        let code = &self.module.functions[self.func_idx as usize].code;
        loop
            invariant
                self.ready(),
                code@ == self.unit().code,
                depth < self.max_depth,
                self.max_depth == self.unit().max_depth,
                state.depth == depth + 1,
                depth == old(state).scopes@.len(),
                depth == old(state).depth,
                state.scopes@ == scopes,
                scopes == old(state).scopes@.push(scope),
                scope == (Scope { kind, base, result }),
                base == outer.len(),
                outer == old(state).values@,
                all_settled(self.unit(), outer),
                block@.kind == kind,
                block@.depth == depth,
                old(state).pc <= state.pc,
                block_from(
                    self.unit(),
                    scopes,
                    block@.eval,
                    state.values@,
                    state.high as nat,
                    gone,
                    state.pc as int,
                ) == goal,
                block_at(
                    self.unit(),
                    scopes,
                    outer,
                    old(state).high as nat,
                    dead,
                    old(state).pc as int,
                ) == match goal {
                    None => None::<(BlockView, nat, int)>,
                    Some(done) => Some(
                        (BlockView { kind, depth: depth, eval: done.eval }, done.high, done.pc),
                    ),
                },
            decreases self.unit().code.len() - state.pc,
        {
            if state.pc >= code.len() {
                return Err(invalid("missing end of block"));
            }
            if state.values.len() >= (u32::MAX - self.locals) as usize || state.values.len()
                < base {
                return Err(invalid("too many operands"));
            }
            let closes = match &code[state.pc] {
                OpCode::End => true,
                OpCode::Else => match kind {
                    BlockKind::If => true,
                    _ => {
                        return Err(invalid("invalid 'else' block, missing 'if'"));
                    },
                },
                _ => false,
            };
            if closes {
                self.emit_return(state, &mut block, gone)?;
                state.scopes.pop();
                state.depth = depth;
                self.settle(state, base, false);
                assert(state.scopes@ =~= old(state).scopes@);
                proof {
                    assert(state.values@ == behind(self.unit(), outer, false));
                }
                return Ok(block);
            }
            match &code[state.pc] {
                OpCode::Block(block_type) => {
                    self.compile_nested(
                        &mut block,
                        state,
                        BlockKind::Block,
                        block_type.is_some(),
                        gone,
                    )?;
                },
                OpCode::Loop(block_type) => {
                    self.compile_nested(
                        &mut block,
                        state,
                        BlockKind::Loop,
                        block_type.is_some(),
                        gone,
                    )?;
                },
                OpCode::If(block_type) => {
                    self.compile_if(&mut block, state, block_type.is_some(), gone)?;
                },
                op => {
                    if !gone {
                        gone = self.compile_op(&mut block, state, op)?;
                        if state.values.len() > state.high {
                            state.high = state.values.len();
                        }
                    }
                },
            }
            state.pc = state.pc + 1;
        }
    }

    /// Appends what the instruction that closes a block adds: the block of
    /// the function returns its result, any other block writes it to the
    /// slot where its operands start.
    fn emit_return(&self, state: &mut State, block: &mut Block, dead: bool) -> (res: Result<
        (),
        Error,
    >)
        requires
            self.fits(old(state)),
        ensures
            final(state).depth == old(state).depth,
            final(state).pc == old(state).pc,
            final(state).high == old(state).high,
            final(state).scopes@ == old(state).scopes@,
            final(block)@.kind == old(block)@.kind,
            final(block)@.depth == old(block)@.depth,
            match close(
                self.unit(),
                old(state).scopes@,
                old(block)@.eval,
                old(state).values@,
                dead,
            ) {
                Some(eval) => res is Ok && final(block)@.eval == eval,
                None => res is Err && res->Err_0 is ValidationError,
            },
    {
        if dead {
            return Ok(());
        }
        let own = state.own();
        let scope = state.scopes[state.scopes.len() - 1];
        let outermost = state.scopes.len() == 1;
        if scope.result {
            if own != 1 {
                return Err(invalid("block leaves other operands than its result"));
            }
            let ret = state.values.pop().unwrap();
            if outermost {
                block.push(Eval::Return(Some(ret)));
            } else {
                let idx = self.slot(scope.base);
                block.push(Eval::SetLocal(idx, ret));
            }
        } else {
            if own != 0 {
                return Err(invalid("block leaves operands"));
            }
            if outermost {
                block.push(Eval::Return(None));
            }
        }
        Ok(())
    }

    fn compile_loop(&self, state: &mut State, result: bool, dead: bool) -> (res: Result<
        Block,
        Error,
    >)
        requires
            self.ready(),
            all_settled(self.unit(), old(state).values@),
            old(state).depth == old(state).scopes@.len(),
        ensures
            match block_at(
                self.unit(),
                old(state).scopes@.push(
                    Scope {
                        kind: BlockKind::Loop,
                        base: old(state).values@.len() as usize,
                        result,
                    },
                ),
                old(state).values@,
                old(state).high as nat,
                dead,
                old(state).pc as int,
            ) {
                Some((block, top, end)) => {
                    &&& res is Ok
                    &&& res->Ok_0@ == block
                    &&& final(state).values@ == old(state).values@
                    &&& final(state).scopes@ == old(state).scopes@
                    &&& final(state).depth == old(state).depth
                    &&& final(state).high == top
                    &&& final(state).pc == end
                    &&& old(state).pc <= end < self.unit().code.len()
                    &&& self.unit().locals + old(state).values@.len() + 1 <= u32::MAX
                    &&& self.unit().code[end] is End
                },
                None => res is Err && res->Err_0 is ValidationError,
            },
        decreases self.unit().code.len() - old(state).pc, 3nat,
    {
        self.compile_block(state, BlockKind::Loop, result, dead)
    }

    fn compile_else(&self, state: &mut State, result: bool, dead: bool) -> (res: Result<
        Block,
        Error,
    >)
        requires
            self.ready(),
            all_settled(self.unit(), old(state).values@),
            old(state).depth == old(state).scopes@.len(),
        ensures
            match block_at(
                self.unit(),
                old(state).scopes@.push(
                    Scope {
                        kind: BlockKind::Else,
                        base: old(state).values@.len() as usize,
                        result,
                    },
                ),
                old(state).values@,
                old(state).high as nat,
                dead,
                old(state).pc as int,
            ) {
                Some((block, top, end)) => {
                    &&& res is Ok
                    &&& res->Ok_0@ == block
                    &&& final(state).values@ == old(state).values@
                    &&& final(state).scopes@ == old(state).scopes@
                    &&& final(state).depth == old(state).depth
                    &&& final(state).high == top
                    &&& final(state).pc == end
                    &&& old(state).pc <= end < self.unit().code.len()
                    &&& self.unit().locals + old(state).values@.len() + 1 <= u32::MAX
                    &&& self.unit().code[end] is End
                },
                None => res is Err && res->Err_0 is ValidationError,
            },
        decreases self.unit().code.len() - old(state).pc, 3nat,
    {
        self.compile_block(state, BlockKind::Else, result, dead)
    }

    /// Appends the statements of a branch.
    fn compile_br(&self, block: &mut Block, state: &mut State, block_depth: u32) -> (res: Result<
        bool,
        Error,
    >)
        requires
            self.fits(old(state)),
        ensures
            old(state).same_place(final(state)),
            final(block)@.kind == old(block)@.kind,
            final(block)@.depth == old(block)@.depth,
            match jump(
                self.unit(),
                old(state).scopes@,
                old(block)@.eval,
                old(state).values@,
                block_depth,
            ) {
                Some((eval, values, dead)) => res == Result::<bool, Error>::Ok(dead) && final(block)@.eval == eval && final(state).values@ == values,
                None => res is Err && res->Err_0 is ValidationError,
            },
    {
        let count = state.scopes.len();
        if block_depth as usize >= count {
            return Err(invalid("missing block"));
        }
        if block_depth as usize == count - 1 {
            return self.leave(block, state);
        }
        let target = state.scopes[count - 1 - block_depth as usize];
        let carries = match target.kind {
            BlockKind::Loop => false,
            _ => target.result,
        };
        if carries {
            if state.own() < 1 || target.base > (u32::MAX - self.locals) as usize {
                return Err(invalid("value stack empty"));
            }
            let val = state.values.pop().unwrap();
            self.flush(block, state);
            let idx = self.slot(target.base);
            block.push(Eval::SetLocal(idx, val));
            block.push(Eval::Br(block_depth));
        } else {
            self.flush(block, state);
            block.push(Eval::Br(block_depth));
        }
        Ok(true)
    }

    /// Appends the statements that leave the function.
    fn leave(&self, block: &mut Block, state: &mut State) -> (res: Result<bool, Error>)
        requires
            self.fits(old(state)),
        ensures
            old(state).same_place(final(state)),
            final(block)@.kind == old(block)@.kind,
            final(block)@.depth == old(block)@.depth,
            match leave_function(
                self.unit(),
                old(state).scopes@.last().base as int,
                old(block)@.eval,
                old(state).values@,
            ) {
                Some((eval, values, dead)) => res == Result::<bool, Error>::Ok(dead) && final(block)@.eval == eval && final(state).values@ == values,
                None => res is Err && res->Err_0 is ValidationError,
            },
    {
        if self.ret_type.is_some() {
            if state.own() < 1 {
                return Err(invalid("value stack empty"));
            }
            let ret = state.values.pop().unwrap();
            self.flush(block, state);
            block.push(Eval::Return(Some(ret)));
        } else {
            self.flush(block, state);
            block.push(Eval::Return(None));
        }
        Ok(true)
    }

    /// Appends the statements of a conditional branch.
    fn compile_br_if(&self, block: &mut Block, state: &mut State, block_depth: u32) -> (res: Result<
        bool,
        Error,
    >)
        requires
            self.fits(old(state)),
            old(block)@.depth < u32::MAX,
            old(block)@.depth + 1 == old(state).scopes@.len(),
        ensures
            old(state).same_place(final(state)),
            final(block)@.kind == old(block)@.kind,
            final(block)@.depth == old(block)@.depth,
            match jump_if(
                self.unit(),
                old(state).scopes@,
                old(block)@.eval,
                old(state).values@,
                block_depth,
            ) {
                Some((eval, values, dead)) => res == Result::<bool, Error>::Ok(dead) && final(block)@.eval == eval && final(state).values@ == values,
                None => res is Err && res->Err_0 is ValidationError,
            },
    {
        let count = state.scopes.len();
        if block_depth as usize >= count || state.own() < 1 {
            return Err(invalid("missing block"));
        }
        let target = state.scopes[count - 1 - block_depth as usize];
        let carries = match target.kind {
            BlockKind::Loop => false,
            _ => target.result,
        };
        if carries {
            if state.own() < 2 || target.base > (u32::MAX - self.locals) as usize || block_depth
                == u32::MAX {
                return Err(invalid("value stack empty"));
            }
            let cond = state.values.pop().unwrap();
            self.flush(block, state);
            let top = Input::Local(self.slot(state.values.len() - 1));
            let mut taken = Block::new(BlockKind::If, block.depth() + 1);
            if block_depth as usize == count - 1 {
                taken.push(Eval::Return(Some(top)));
            } else {
                let idx = self.slot(target.base);
                taken.push(Eval::SetLocal(idx, top));
                taken.push(Eval::Br(block_depth + 1));
            }
            assert(taken@.eval =~= if block_depth == count - 1 {
                seq![EvalView::Return(Some(top))]
            } else {
                seq![
                    EvalView::SetLocal(slot(self.unit(), target.base as int), top),
                    EvalView::Br((block_depth + 1) as u32),
                ]
            });
            block.push(Eval::If(cond, taken, None));
        } else {
            let cond = state.values.pop().unwrap();
            self.flush(block, state);
            block.push(Eval::BrIf(cond, block_depth));
        }
        Ok(false)
    }

    /// Translates the `Block` or `Loop` at the current place and leaves the
    /// place at the `End` that closes it.
    fn compile_nested(
        &self,
        parent: &mut Block,
        state: &mut State,
        kind: BlockKind,
        result: bool,
        dead: bool,
    ) -> (res: Result<(), Error>)
        requires
            self.fits(old(state)),
            old(state).pc < self.unit().code.len(),
            old(state).depth == old(state).scopes@.len(),
            kind == BlockKind::Block || kind == BlockKind::Loop,
        ensures
            match nested_at(
                self.unit(),
                old(state).scopes@,
                old(parent)@.eval,
                old(state).values@,
                old(state).high as nat,
                dead,
                old(state).pc as int,
                kind,
                result,
            ) {
                Some(done) => {
                    &&& res is Ok
                    &&& final(parent)@ == (BlockView { eval: done.eval, ..old(parent)@ })
                    &&& final(state).values@ == done.values
                    &&& final(state).high == done.high
                    &&& final(state).pc == done.pc
                    &&& final(state).depth == old(state).depth
                    &&& final(state).scopes@ == old(state).scopes@
                    &&& old(state).pc < done.pc < self.unit().code.len()
                },
                None => res is Err && res->Err_0 is ValidationError,
            },
        decreases self.unit().code.len() - old(state).pc, 1nat,
    {
        self.flush(parent, state);
        let below = state.values.len();
        state.pc = state.pc + 1;
        let inner = match kind {
            BlockKind::Loop => self.compile_loop(state, result, dead)?,
            _ => self.compile_block(state, BlockKind::Block, result, dead)?,
        };
        parent.push(Eval::Nested(inner));
        let ghost outer = state.values@;
        self.settle(state, below, result);
        assert(state.values@ == behind(self.unit(), outer, result));
        if state.values.len() > state.high {
            state.high = state.values.len();
        }
        Ok(())
    }

    /// Translates the `If` at the current place and leaves the place at the
    /// `End` that closes it: the condition is the top operand, and the block
    /// that follows may have an `Else`.
    fn compile_if(&self, parent: &mut Block, state: &mut State, result: bool, dead: bool) -> (res:
        Result<(), Error>)
        requires
            self.fits(old(state)),
            old(state).pc < self.unit().code.len(),
            old(state).depth == old(state).scopes@.len(),
        ensures
            match if_at(
                self.unit(),
                old(state).scopes@,
                old(parent)@.eval,
                old(state).values@,
                old(state).high as nat,
                dead,
                old(state).pc as int,
                result,
            ) {
                Some(done) => {
                    &&& res is Ok
                    &&& final(parent)@ == (BlockView { eval: done.eval, ..old(parent)@ })
                    &&& final(state).values@ == done.values
                    &&& final(state).high == done.high
                    &&& final(state).pc == done.pc
                    &&& final(state).depth == old(state).depth
                    &&& final(state).scopes@ == old(state).scopes@
                    &&& old(state).pc < done.pc < self.unit().code.len()
                },
                None => res is Err && res->Err_0 is ValidationError,
            },
        decreases self.unit().code.len() - old(state).pc, 1nat,
    {
        let code = &self.module.functions[self.func_idx as usize].code;
        let cond = if dead {
            Input::Const(StackValue(0))
        } else {
            if state.own() < 1 {
                return Err(invalid("value stack empty"));
            }
            state.values.pop().unwrap()
        };
        self.flush(parent, state);
        let below = state.values.len();
        let ghost outer = state.values@;
        state.pc = state.pc + 1;
        let if_block = self.compile_block(state, BlockKind::If, result, dead)?;
        match &code[state.pc] {
            OpCode::Else => {
                state.pc = state.pc + 1;
                let else_block = self.compile_else(state, result, dead)?;
                parent.push(Eval::If(cond, if_block, Some(else_block)));
                self.settle(state, below, result);
                assert(state.values@ == behind(self.unit(), outer, result));
                if state.values.len() > state.high {
                    state.high = state.values.len();
                }
            },
            _ => {
                if result {
                    return Err(invalid("an 'if' with a result needs an 'else'"));
                }
                parent.push(Eval::If(cond, if_block, None));
            },
        }
        Ok(())
    }

    /// Translates an instruction that opens or closes no block, and tells
    /// whether the code behind it is dead.
    fn compile_op(&self, block: &mut Block, state: &mut State, op: &OpCode) -> (res: Result<
        bool,
        Error,
    >)
        requires
            self.fits(old(state)),
            old(block)@.depth < u32::MAX,
            old(block)@.depth + 1 == old(state).scopes@.len(),
        ensures
            old(state).same_place(final(state)),
            final(block)@.kind == old(block)@.kind,
            final(block)@.depth == old(block)@.depth,
            match simple(
                self.unit(),
                old(state).scopes@,
                *op,
                old(block)@.eval,
                old(state).values@,
            ) {
                Some((eval, values, dead)) => res == Result::<bool, Error>::Ok(dead) && final(block)@.eval == eval && final(state).values@ == values,
                None => res is Err && res->Err_0 is ValidationError,
            },
    {
        let ghost values = state.values@;
        let ghost len = values.len() as int;
        let own = state.own();
        match op {
            OpCode::Nop => Ok(false),
            OpCode::Unreachable => {
                self.flush(block, state);
                block.push(Eval::Trap(TrapKind::Unreachable));
                Ok(true)
            },
            OpCode::Return => self.leave(block, state),
            OpCode::Br(block_depth) => self.compile_br(block, state, *block_depth),
            OpCode::BrIf(block_depth) => self.compile_br_if(block, state, *block_depth),
            OpCode::BrTable(table, default) => {
                if own < 1 || !self.plain_target(state, *default) || !self.plain_table(
                    state,
                    table,
                ) {
                    return Err(invalid("branch table"));
                }
                let val = state.values.pop().unwrap();
                self.flush(block, state);
                block.push(Eval::BrTable(val, copy_depths(table), *default));
                Ok(true)
            },
            OpCode::Call(idx) => {
                if *idx as usize >= self.module.functions.len() {
                    return Err(invalid("call of a function that the module does not have"));
                }
                let addr = match self.base.checked_add(*idx) {
                    Some(addr) => addr,
                    None => {
                        return Err(invalid("function address out of range"));
                    },
                };
                let callee = &self.module.functions[*idx as usize];
                let count = callee.func_type.params.len();
                if own < count {
                    return Err(invalid("value stack empty"));
                }
                let args = state.take_args(count);
                let call = Input::Op(Box::new(Op::Call(addr, args)));
                if callee.func_type.ret_type.is_some() {
                    state.push(call);
                } else {
                    self.flush(block, state);
                    block.push(Eval::Drop(call));
                }
                Ok(false)
            },
            OpCode::CallIndirect(idx, _) => {
                if *idx as usize >= self.module.types.len() {
                    return Err(invalid("call through a type that the module does not have"));
                }
                let callee = &self.module.types[*idx as usize];
                let count = callee.params.len();
                if own <= count {
                    return Err(invalid("value stack empty"));
                }
                self.flush(block, state);
                state.values.truncate(state.values.len() - count - 1);
                block.push(Eval::Trap(TrapKind::NotImplemented));
                if callee.ret_type.is_some() {
                    let idx = self.slot(state.values.len());
                    state.push(Input::Local(idx));
                }
                Ok(false)
            },
            OpCode::Drop => {
                if own < 1 {
                    return Err(invalid("value stack empty"));
                }
                let val = state.values.pop().unwrap();
                self.flush(block, state);
                block.push(Eval::Drop(val));
                Ok(false)
            },
            OpCode::Select => {
                if own < 3 {
                    return Err(invalid("value stack empty"));
                }
                let cond = state.values.pop().unwrap();
                let second = state.values.pop().unwrap();
                let first = state.values.pop().unwrap();
                assert(state.values@ =~= values.take(len - 3));
                state.push(Input::Op(Box::new(Op::Select(first, second, cond))));
                Ok(false)
            },
            OpCode::GetLocal(idx) => {
                if *idx >= self.locals {
                    return Err(invalid("no such local"));
                }
                state.push(Input::Local(*idx));
                Ok(false)
            },
            OpCode::SetLocal(idx) => {
                if own < 1 || *idx >= self.locals {
                    return Err(invalid("value stack empty"));
                }
                let val = state.values.pop().unwrap();
                self.flush(block, state);
                block.push(Eval::SetLocal(*idx, val));
                Ok(false)
            },
            OpCode::TeeLocal(idx) => {
                if own < 1 || *idx >= self.locals {
                    return Err(invalid("value stack empty"));
                }
                let val = state.values.pop().unwrap();
                state.push(Input::Op(Box::new(Op::Tee(*idx, val))));
                Ok(false)
            },
            _ => {
                match classify(op) {
                    Shape::Special => Err(invalid("instruction outside its block")),
                    Shape::Unary(kind) => {
                        if own < 1 {
                            return Err(invalid("value stack empty"));
                        }
                        let val = state.values.pop().unwrap();
                        state.push(Input::Op(Box::new(Op::Unary(kind, val))));
                        Ok(false)
                    },
                    Shape::Binary(kind) => {
                        if own < 2 {
                            return Err(invalid("value stack empty"));
                        }
                        let right = state.values.pop().unwrap();
                        let left = state.values.pop().unwrap();
                        assert(state.values@ =~= values.take(len - 2));
                        state.push(Input::Op(Box::new(Op::Binary(kind, left, right))));
                        Ok(false)
                    },
                    Shape::Const(val) => {
                        state.push(Input::Const(val));
                        Ok(false)
                    },
                    Shape::Value(pops) => {
                        if own < pops as usize {
                            return Err(invalid("value stack empty"));
                        }
                        self.flush(block, state);
                        state.values.truncate(state.values.len() - pops as usize);
                        block.push(Eval::Trap(TrapKind::NotImplemented));
                        let idx = self.slot(state.values.len());
                        state.push(Input::Local(idx));
                        Ok(false)
                    },
                    Shape::Effect(pops) => {
                        if own < pops as usize {
                            return Err(invalid("value stack empty"));
                        }
                        self.flush(block, state);
                        state.values.truncate(state.values.len() - pops as usize);
                        block.push(Eval::Trap(TrapKind::NotImplemented));
                        Ok(false)
                    },
                }
            },
        }
    }

    /// Whether a depth names an open block and carries no value.
    fn plain_target(&self, state: &State, block_depth: u32) -> (res: bool)
        ensures
            res == (block_depth < state.scopes@.len() && !carries(state.scopes@, block_depth)),
    {
        let count = state.scopes.len();
        if block_depth as usize >= count {
            return false;
        }
        let target = state.scopes[count - 1 - block_depth as usize];
        match target.kind {
            BlockKind::Loop => true,
            _ => !target.result,
        }
    }

    /// Whether every depth of a branch table names an open block and
    /// carries no value.
    fn plain_table(&self, state: &State, table: &Vec<u32>) -> (res: bool)
        ensures
            res == plain_targets(state.scopes@, table@),
    {
        let mut at: usize = 0;
        while at < table.len()
            invariant
                at <= table@.len(),
                forall|i: int|
                    0 <= i < at ==> (#[trigger] table@[i]) < state.scopes@.len() && !carries(
                        state.scopes@,
                        table@[i],
                    ),
            decreases table@.len() - at,
        {
            if !self.plain_target(state, table[at]) {
                return false;
            }
            at = at + 1;
        }
        true
    }
}

/// A copy of the branch depths of a table.
fn copy_depths(table: &Vec<u32>) -> (res: Vec<u32>)
    ensures
        res@ == table@,
{
    let mut res: Vec<u32> = Vec::new();
    let mut idx: usize = 0;
    while idx < table.len()
        invariant
            idx <= table@.len(),
            res@ == table@.take(idx as int),
        decreases table@.len() - idx,
    {
        res.push(table[idx]);
        idx = idx + 1;
        assert(res@ =~= table@.take(idx as int));
    }
    assert(table@.take(idx as int) =~= table@);
    res
}

} // verus!
