//! Translates the instructions of a function body into flat code whose
//! branches carry absolute targets.
//!
//! A branch may be emitted before the place of its target is known. It then
//! carries a placeholder, and its own place is recorded with the label of
//! the target; when the label is resolved every recorded branch is
//! rewritten.
use vstd::prelude::*;

use crate::error::Error;
use crate::module::DecodedFunction;
use crate::op::OpCode;
use crate::value::{
    ConstF32, ConstF64, ConstI32, ConstI64, FuncIdx, GlobalIdx, LocalIdx, MemIdx, TypeIdx,
};

verus! {

/// A place in the flat code.
pub type PC = u32;

pub type LabelID = u32;

/// The target that a branch carries until its label is resolved. No code is
/// long enough for it to be a place.
pub const PC_MAX: PC = 0xffff_ffff;

/// An instruction of the flat code of a function. A branch carries the
/// absolute place of its target; a float constant is carried as its bit
/// pattern; a memory instruction carries its offset.
#[derive(Debug, Clone, Copy, PartialEq, Eq, Structural)]
pub enum Instruction {
    Br(PC),
    BrIfEqz(PC),
    BrIfNez(PC),
    /// Takes an index and goes on at the branch that it selects among the
    /// `count` branches that follow, or at the one after them when the index
    /// is past the end.
    BrTable { count: u32 },
    Unreachable,
    Return,
    Call(FuncIdx),
    CallIndirect(TypeIdx),
    Drop,
    Select,
    GetLocal(LocalIdx),
    SetLocal(LocalIdx),
    TeeLocal(LocalIdx),
    GetGlobal(GlobalIdx),
    SetGlobal(GlobalIdx),
    I32Load(MemIdx),
    I64Load(MemIdx),
    F32Load(MemIdx),
    F64Load(MemIdx),
    I32Load8S(MemIdx),
    I32Load8U(MemIdx),
    I32Load16S(MemIdx),
    I32Load16U(MemIdx),
    I64Load8S(MemIdx),
    I64Load8U(MemIdx),
    I64Load16S(MemIdx),
    I64Load16U(MemIdx),
    I64Load32S(MemIdx),
    I64Load32U(MemIdx),
    I32Store(MemIdx),
    I64Store(MemIdx),
    F32Store(MemIdx),
    F64Store(MemIdx),
    I32Store8(MemIdx),
    I32Store16(MemIdx),
    I64Store8(MemIdx),
    I64Store16(MemIdx),
    I64Store32(MemIdx),
    CurrentMemory,
    GrowMemory,
    I32Const(ConstI32),
    I64Const(ConstI64),
    F32Const(ConstF32),
    F64Const(ConstF64),
    I32Eqz,
    I32Eq,
    I32Ne,
    I32LtS,
    I32LtU,
    I32GtS,
    I32GtU,
    I32LeS,
    I32LeU,
    I32GeS,
    I32GeU,
    I64Eqz,
    I64Eq,
    I64Ne,
    I64LtS,
    I64LtU,
    I64GtS,
    I64GtU,
    I64LeS,
    I64LeU,
    I64GeS,
    I64GeU,
    F32Eq,
    F32Ne,
    F32Lt,
    F32Gt,
    F32Le,
    F32Ge,
    F64Eq,
    F64Ne,
    F64Lt,
    F64Gt,
    F64Le,
    F64Ge,
    I32Clz,
    I32Ctz,
    I32Popcnt,
    I32Add,
    I32Sub,
    I32Mul,
    I32DivS,
    I32DivU,
    I32RemS,
    I32RemU,
    I32And,
    I32Or,
    I32Xor,
    I32Shl,
    I32ShrS,
    I32ShrU,
    I32Rotl,
    I32Rotr,
    I64Clz,
    I64Ctz,
    I64Popcnt,
    I64Add,
    I64Sub,
    I64Mul,
    I64DivS,
    I64DivU,
    I64RemS,
    I64RemU,
    I64And,
    I64Or,
    I64Xor,
    I64Shl,
    I64ShrS,
    I64ShrU,
    I64Rotl,
    I64Rotr,
    F32Abs,
    F32Neg,
    F32Ceil,
    F32Floor,
    F32Trunc,
    F32Nearest,
    F32Sqrt,
    F32Add,
    F32Sub,
    F32Mul,
    F32Div,
    F32Min,
    F32Max,
    F32Copysign,
    F64Abs,
    F64Neg,
    F64Ceil,
    F64Floor,
    F64Trunc,
    F64Nearest,
    F64Sqrt,
    F64Add,
    F64Sub,
    F64Mul,
    F64Div,
    F64Min,
    F64Max,
    F64Copysign,
    I32WrapI64,
    I32TruncSF32,
    I32TruncUF32,
    I32TruncSF64,
    I32TruncUF64,
    I64ExtendSI32,
    I64ExtendUI32,
    I64TruncSF32,
    I64TruncUF32,
    I64TruncSF64,
    I64TruncUF64,
    F32ConvertSI32,
    F32ConvertUI32,
    F32ConvertSI64,
    F32ConvertUI64,
    F32DemoteF64,
    F64ConvertSI32,
    F64ConvertUI32,
    F64ConvertSI64,
    F64ConvertUI64,
    F64PromoteF32,
    I32ReinterpretF32,
    I64ReinterpretF64,
    F32ReinterpretI32,
    F64ReinterpretI64,
}

/// The instruction that a source instruction becomes when it is neither a
/// branch nor the start or end of a block, which all depend on the blocks
/// around them, nor a `Nop`, which becomes nothing.
pub open spec fn plain(op: OpCode) -> Option<Instruction> {
    match op {
        OpCode::Nop => None,
        OpCode::Block(_) => None,
        OpCode::Loop(_) => None,
        OpCode::If(_) => None,
        OpCode::Else => None,
        OpCode::End => None,
        OpCode::Br(_) => None,
        OpCode::BrIf(_) => None,
        OpCode::BrTable(_, _) => None,
        OpCode::Unreachable => Some(Instruction::Unreachable),
        OpCode::Return => Some(Instruction::Return),
        OpCode::Call(idx) => Some(Instruction::Call(idx)),
        OpCode::CallIndirect(idx, _) => Some(Instruction::CallIndirect(idx)),
        OpCode::Drop => Some(Instruction::Drop),
        OpCode::Select => Some(Instruction::Select),
        OpCode::GetLocal(idx) => Some(Instruction::GetLocal(idx)),
        OpCode::SetLocal(idx) => Some(Instruction::SetLocal(idx)),
        OpCode::TeeLocal(idx) => Some(Instruction::TeeLocal(idx)),
        OpCode::GetGlobal(idx) => Some(Instruction::GetGlobal(idx)),
        OpCode::SetGlobal(idx) => Some(Instruction::SetGlobal(idx)),
        OpCode::I32Load(_, offset) => Some(Instruction::I32Load(offset)),
        OpCode::I64Load(_, offset) => Some(Instruction::I64Load(offset)),
        OpCode::F32Load(_, offset) => Some(Instruction::F32Load(offset)),
        OpCode::F64Load(_, offset) => Some(Instruction::F64Load(offset)),
        OpCode::I32Load8S(_, offset) => Some(Instruction::I32Load8S(offset)),
        OpCode::I32Load8U(_, offset) => Some(Instruction::I32Load8U(offset)),
        OpCode::I32Load16S(_, offset) => Some(Instruction::I32Load16S(offset)),
        OpCode::I32Load16U(_, offset) => Some(Instruction::I32Load16U(offset)),
        OpCode::I64Load8S(_, offset) => Some(Instruction::I64Load8S(offset)),
        OpCode::I64Load8U(_, offset) => Some(Instruction::I64Load8U(offset)),
        OpCode::I64Load16S(_, offset) => Some(Instruction::I64Load16S(offset)),
        OpCode::I64Load16U(_, offset) => Some(Instruction::I64Load16U(offset)),
        OpCode::I64Load32S(_, offset) => Some(Instruction::I64Load32S(offset)),
        OpCode::I64Load32U(_, offset) => Some(Instruction::I64Load32U(offset)),
        OpCode::I32Store(_, offset) => Some(Instruction::I32Store(offset)),
        OpCode::I64Store(_, offset) => Some(Instruction::I64Store(offset)),
        OpCode::F32Store(_, offset) => Some(Instruction::F32Store(offset)),
        OpCode::F64Store(_, offset) => Some(Instruction::F64Store(offset)),
        OpCode::I32Store8(_, offset) => Some(Instruction::I32Store8(offset)),
        OpCode::I32Store16(_, offset) => Some(Instruction::I32Store16(offset)),
        OpCode::I64Store8(_, offset) => Some(Instruction::I64Store8(offset)),
        OpCode::I64Store16(_, offset) => Some(Instruction::I64Store16(offset)),
        OpCode::I64Store32(_, offset) => Some(Instruction::I64Store32(offset)),
        OpCode::CurrentMemory(_) => Some(Instruction::CurrentMemory),
        OpCode::GrowMemory(_) => Some(Instruction::GrowMemory),
        OpCode::I32Const(val) => Some(Instruction::I32Const(val)),
        OpCode::I64Const(val) => Some(Instruction::I64Const(val)),
        OpCode::F32Const(val) => Some(Instruction::F32Const(val)),
        OpCode::F64Const(val) => Some(Instruction::F64Const(val)),
        OpCode::I32Eqz => Some(Instruction::I32Eqz),
        OpCode::I32Eq => Some(Instruction::I32Eq),
        OpCode::I32Ne => Some(Instruction::I32Ne),
        OpCode::I32LtS => Some(Instruction::I32LtS),
        OpCode::I32LtU => Some(Instruction::I32LtU),
        OpCode::I32GtS => Some(Instruction::I32GtS),
        OpCode::I32GtU => Some(Instruction::I32GtU),
        OpCode::I32LeS => Some(Instruction::I32LeS),
        OpCode::I32LeU => Some(Instruction::I32LeU),
        OpCode::I32GeS => Some(Instruction::I32GeS),
        OpCode::I32GeU => Some(Instruction::I32GeU),
        OpCode::I64Eqz => Some(Instruction::I64Eqz),
        OpCode::I64Eq => Some(Instruction::I64Eq),
        OpCode::I64Ne => Some(Instruction::I64Ne),
        OpCode::I64LtS => Some(Instruction::I64LtS),
        OpCode::I64LtU => Some(Instruction::I64LtU),
        OpCode::I64GtS => Some(Instruction::I64GtS),
        OpCode::I64GtU => Some(Instruction::I64GtU),
        OpCode::I64LeS => Some(Instruction::I64LeS),
        OpCode::I64LeU => Some(Instruction::I64LeU),
        OpCode::I64GeS => Some(Instruction::I64GeS),
        OpCode::I64GeU => Some(Instruction::I64GeU),
        OpCode::F32Eq => Some(Instruction::F32Eq),
        OpCode::F32Ne => Some(Instruction::F32Ne),
        OpCode::F32Lt => Some(Instruction::F32Lt),
        OpCode::F32Gt => Some(Instruction::F32Gt),
        OpCode::F32Le => Some(Instruction::F32Le),
        OpCode::F32Ge => Some(Instruction::F32Ge),
        OpCode::F64Eq => Some(Instruction::F64Eq),
        OpCode::F64Ne => Some(Instruction::F64Ne),
        OpCode::F64Lt => Some(Instruction::F64Lt),
        OpCode::F64Gt => Some(Instruction::F64Gt),
        OpCode::F64Le => Some(Instruction::F64Le),
        OpCode::F64Ge => Some(Instruction::F64Ge),
        OpCode::I32Clz => Some(Instruction::I32Clz),
        OpCode::I32Ctz => Some(Instruction::I32Ctz),
        OpCode::I32Popcnt => Some(Instruction::I32Popcnt),
        OpCode::I32Add => Some(Instruction::I32Add),
        OpCode::I32Sub => Some(Instruction::I32Sub),
        OpCode::I32Mul => Some(Instruction::I32Mul),
        OpCode::I32DivS => Some(Instruction::I32DivS),
        OpCode::I32DivU => Some(Instruction::I32DivU),
        OpCode::I32RemS => Some(Instruction::I32RemS),
        OpCode::I32RemU => Some(Instruction::I32RemU),
        OpCode::I32And => Some(Instruction::I32And),
        OpCode::I32Or => Some(Instruction::I32Or),
        OpCode::I32Xor => Some(Instruction::I32Xor),
        OpCode::I32Shl => Some(Instruction::I32Shl),
        OpCode::I32ShrS => Some(Instruction::I32ShrS),
        OpCode::I32ShrU => Some(Instruction::I32ShrU),
        OpCode::I32Rotl => Some(Instruction::I32Rotl),
        OpCode::I32Rotr => Some(Instruction::I32Rotr),
        OpCode::I64Clz => Some(Instruction::I64Clz),
        OpCode::I64Ctz => Some(Instruction::I64Ctz),
        OpCode::I64Popcnt => Some(Instruction::I64Popcnt),
        OpCode::I64Add => Some(Instruction::I64Add),
        OpCode::I64Sub => Some(Instruction::I64Sub),
        OpCode::I64Mul => Some(Instruction::I64Mul),
        OpCode::I64DivS => Some(Instruction::I64DivS),
        OpCode::I64DivU => Some(Instruction::I64DivU),
        OpCode::I64RemS => Some(Instruction::I64RemS),
        OpCode::I64RemU => Some(Instruction::I64RemU),
        OpCode::I64And => Some(Instruction::I64And),
        OpCode::I64Or => Some(Instruction::I64Or),
        OpCode::I64Xor => Some(Instruction::I64Xor),
        OpCode::I64Shl => Some(Instruction::I64Shl),
        OpCode::I64ShrS => Some(Instruction::I64ShrS),
        OpCode::I64ShrU => Some(Instruction::I64ShrU),
        OpCode::I64Rotl => Some(Instruction::I64Rotl),
        OpCode::I64Rotr => Some(Instruction::I64Rotr),
        OpCode::F32Abs => Some(Instruction::F32Abs),
        OpCode::F32Neg => Some(Instruction::F32Neg),
        OpCode::F32Ceil => Some(Instruction::F32Ceil),
        OpCode::F32Floor => Some(Instruction::F32Floor),
        OpCode::F32Trunc => Some(Instruction::F32Trunc),
        OpCode::F32Nearest => Some(Instruction::F32Nearest),
        OpCode::F32Sqrt => Some(Instruction::F32Sqrt),
        OpCode::F32Add => Some(Instruction::F32Add),
        OpCode::F32Sub => Some(Instruction::F32Sub),
        OpCode::F32Mul => Some(Instruction::F32Mul),
        OpCode::F32Div => Some(Instruction::F32Div),
        OpCode::F32Min => Some(Instruction::F32Min),
        OpCode::F32Max => Some(Instruction::F32Max),
        OpCode::F32Copysign => Some(Instruction::F32Copysign),
        OpCode::F64Abs => Some(Instruction::F64Abs),
        OpCode::F64Neg => Some(Instruction::F64Neg),
        OpCode::F64Ceil => Some(Instruction::F64Ceil),
        OpCode::F64Floor => Some(Instruction::F64Floor),
        OpCode::F64Trunc => Some(Instruction::F64Trunc),
        OpCode::F64Nearest => Some(Instruction::F64Nearest),
        OpCode::F64Sqrt => Some(Instruction::F64Sqrt),
        OpCode::F64Add => Some(Instruction::F64Add),
        OpCode::F64Sub => Some(Instruction::F64Sub),
        OpCode::F64Mul => Some(Instruction::F64Mul),
        OpCode::F64Div => Some(Instruction::F64Div),
        OpCode::F64Min => Some(Instruction::F64Min),
        OpCode::F64Max => Some(Instruction::F64Max),
        OpCode::F64Copysign => Some(Instruction::F64Copysign),
        OpCode::I32WrapI64 => Some(Instruction::I32WrapI64),
        OpCode::I32TruncSF32 => Some(Instruction::I32TruncSF32),
        OpCode::I32TruncUF32 => Some(Instruction::I32TruncUF32),
        OpCode::I32TruncSF64 => Some(Instruction::I32TruncSF64),
        OpCode::I32TruncUF64 => Some(Instruction::I32TruncUF64),
        OpCode::I64ExtendSI32 => Some(Instruction::I64ExtendSI32),
        OpCode::I64ExtendUI32 => Some(Instruction::I64ExtendUI32),
        OpCode::I64TruncSF32 => Some(Instruction::I64TruncSF32),
        OpCode::I64TruncUF32 => Some(Instruction::I64TruncUF32),
        OpCode::I64TruncSF64 => Some(Instruction::I64TruncSF64),
        OpCode::I64TruncUF64 => Some(Instruction::I64TruncUF64),
        OpCode::F32ConvertSI32 => Some(Instruction::F32ConvertSI32),
        OpCode::F32ConvertUI32 => Some(Instruction::F32ConvertUI32),
        OpCode::F32ConvertSI64 => Some(Instruction::F32ConvertSI64),
        OpCode::F32ConvertUI64 => Some(Instruction::F32ConvertUI64),
        OpCode::F32DemoteF64 => Some(Instruction::F32DemoteF64),
        OpCode::F64ConvertSI32 => Some(Instruction::F64ConvertSI32),
        OpCode::F64ConvertUI32 => Some(Instruction::F64ConvertUI32),
        OpCode::F64ConvertSI64 => Some(Instruction::F64ConvertSI64),
        OpCode::F64ConvertUI64 => Some(Instruction::F64ConvertUI64),
        OpCode::F64PromoteF32 => Some(Instruction::F64PromoteF32),
        OpCode::I32ReinterpretF32 => Some(Instruction::I32ReinterpretF32),
        OpCode::I64ReinterpretF64 => Some(Instruction::I64ReinterpretF64),
        OpCode::F32ReinterpretI32 => Some(Instruction::F32ReinterpretI32),
        OpCode::F64ReinterpretI64 => Some(Instruction::F64ReinterpretI64),
    }
}

pub fn to_plain(op: &OpCode) -> (res: Option<Instruction>)
    ensures
        res == plain(*op),
{
    match op {
        OpCode::Nop => None,
        OpCode::Block(_) => None,
        OpCode::Loop(_) => None,
        OpCode::If(_) => None,
        OpCode::Else => None,
        OpCode::End => None,
        OpCode::Br(_) => None,
        OpCode::BrIf(_) => None,
        OpCode::BrTable(_, _) => None,
        OpCode::Unreachable => Some(Instruction::Unreachable),
        OpCode::Return => Some(Instruction::Return),
        OpCode::Call(idx) => Some(Instruction::Call(*idx)),
        OpCode::CallIndirect(idx, _) => Some(Instruction::CallIndirect(*idx)),
        OpCode::Drop => Some(Instruction::Drop),
        OpCode::Select => Some(Instruction::Select),
        OpCode::GetLocal(idx) => Some(Instruction::GetLocal(*idx)),
        OpCode::SetLocal(idx) => Some(Instruction::SetLocal(*idx)),
        OpCode::TeeLocal(idx) => Some(Instruction::TeeLocal(*idx)),
        OpCode::GetGlobal(idx) => Some(Instruction::GetGlobal(*idx)),
        OpCode::SetGlobal(idx) => Some(Instruction::SetGlobal(*idx)),
        OpCode::I32Load(_, offset) => Some(Instruction::I32Load(*offset)),
        OpCode::I64Load(_, offset) => Some(Instruction::I64Load(*offset)),
        OpCode::F32Load(_, offset) => Some(Instruction::F32Load(*offset)),
        OpCode::F64Load(_, offset) => Some(Instruction::F64Load(*offset)),
        OpCode::I32Load8S(_, offset) => Some(Instruction::I32Load8S(*offset)),
        OpCode::I32Load8U(_, offset) => Some(Instruction::I32Load8U(*offset)),
        OpCode::I32Load16S(_, offset) => Some(Instruction::I32Load16S(*offset)),
        OpCode::I32Load16U(_, offset) => Some(Instruction::I32Load16U(*offset)),
        OpCode::I64Load8S(_, offset) => Some(Instruction::I64Load8S(*offset)),
        OpCode::I64Load8U(_, offset) => Some(Instruction::I64Load8U(*offset)),
        OpCode::I64Load16S(_, offset) => Some(Instruction::I64Load16S(*offset)),
        OpCode::I64Load16U(_, offset) => Some(Instruction::I64Load16U(*offset)),
        OpCode::I64Load32S(_, offset) => Some(Instruction::I64Load32S(*offset)),
        OpCode::I64Load32U(_, offset) => Some(Instruction::I64Load32U(*offset)),
        OpCode::I32Store(_, offset) => Some(Instruction::I32Store(*offset)),
        OpCode::I64Store(_, offset) => Some(Instruction::I64Store(*offset)),
        OpCode::F32Store(_, offset) => Some(Instruction::F32Store(*offset)),
        OpCode::F64Store(_, offset) => Some(Instruction::F64Store(*offset)),
        OpCode::I32Store8(_, offset) => Some(Instruction::I32Store8(*offset)),
        OpCode::I32Store16(_, offset) => Some(Instruction::I32Store16(*offset)),
        OpCode::I64Store8(_, offset) => Some(Instruction::I64Store8(*offset)),
        OpCode::I64Store16(_, offset) => Some(Instruction::I64Store16(*offset)),
        OpCode::I64Store32(_, offset) => Some(Instruction::I64Store32(*offset)),
        OpCode::CurrentMemory(_) => Some(Instruction::CurrentMemory),
        OpCode::GrowMemory(_) => Some(Instruction::GrowMemory),
        OpCode::I32Const(val) => Some(Instruction::I32Const(*val)),
        OpCode::I64Const(val) => Some(Instruction::I64Const(*val)),
        OpCode::F32Const(val) => Some(Instruction::F32Const(*val)),
        OpCode::F64Const(val) => Some(Instruction::F64Const(*val)),
        OpCode::I32Eqz => Some(Instruction::I32Eqz),
        OpCode::I32Eq => Some(Instruction::I32Eq),
        OpCode::I32Ne => Some(Instruction::I32Ne),
        OpCode::I32LtS => Some(Instruction::I32LtS),
        OpCode::I32LtU => Some(Instruction::I32LtU),
        OpCode::I32GtS => Some(Instruction::I32GtS),
        OpCode::I32GtU => Some(Instruction::I32GtU),
        OpCode::I32LeS => Some(Instruction::I32LeS),
        OpCode::I32LeU => Some(Instruction::I32LeU),
        OpCode::I32GeS => Some(Instruction::I32GeS),
        OpCode::I32GeU => Some(Instruction::I32GeU),
        OpCode::I64Eqz => Some(Instruction::I64Eqz),
        OpCode::I64Eq => Some(Instruction::I64Eq),
        OpCode::I64Ne => Some(Instruction::I64Ne),
        OpCode::I64LtS => Some(Instruction::I64LtS),
        OpCode::I64LtU => Some(Instruction::I64LtU),
        OpCode::I64GtS => Some(Instruction::I64GtS),
        OpCode::I64GtU => Some(Instruction::I64GtU),
        OpCode::I64LeS => Some(Instruction::I64LeS),
        OpCode::I64LeU => Some(Instruction::I64LeU),
        OpCode::I64GeS => Some(Instruction::I64GeS),
        OpCode::I64GeU => Some(Instruction::I64GeU),
        OpCode::F32Eq => Some(Instruction::F32Eq),
        OpCode::F32Ne => Some(Instruction::F32Ne),
        OpCode::F32Lt => Some(Instruction::F32Lt),
        OpCode::F32Gt => Some(Instruction::F32Gt),
        OpCode::F32Le => Some(Instruction::F32Le),
        OpCode::F32Ge => Some(Instruction::F32Ge),
        OpCode::F64Eq => Some(Instruction::F64Eq),
        OpCode::F64Ne => Some(Instruction::F64Ne),
        OpCode::F64Lt => Some(Instruction::F64Lt),
        OpCode::F64Gt => Some(Instruction::F64Gt),
        OpCode::F64Le => Some(Instruction::F64Le),
        OpCode::F64Ge => Some(Instruction::F64Ge),
        OpCode::I32Clz => Some(Instruction::I32Clz),
        OpCode::I32Ctz => Some(Instruction::I32Ctz),
        OpCode::I32Popcnt => Some(Instruction::I32Popcnt),
        OpCode::I32Add => Some(Instruction::I32Add),
        OpCode::I32Sub => Some(Instruction::I32Sub),
        OpCode::I32Mul => Some(Instruction::I32Mul),
        OpCode::I32DivS => Some(Instruction::I32DivS),
        OpCode::I32DivU => Some(Instruction::I32DivU),
        OpCode::I32RemS => Some(Instruction::I32RemS),
        OpCode::I32RemU => Some(Instruction::I32RemU),
        OpCode::I32And => Some(Instruction::I32And),
        OpCode::I32Or => Some(Instruction::I32Or),
        OpCode::I32Xor => Some(Instruction::I32Xor),
        OpCode::I32Shl => Some(Instruction::I32Shl),
        OpCode::I32ShrS => Some(Instruction::I32ShrS),
        OpCode::I32ShrU => Some(Instruction::I32ShrU),
        OpCode::I32Rotl => Some(Instruction::I32Rotl),
        OpCode::I32Rotr => Some(Instruction::I32Rotr),
        OpCode::I64Clz => Some(Instruction::I64Clz),
        OpCode::I64Ctz => Some(Instruction::I64Ctz),
        OpCode::I64Popcnt => Some(Instruction::I64Popcnt),
        OpCode::I64Add => Some(Instruction::I64Add),
        OpCode::I64Sub => Some(Instruction::I64Sub),
        OpCode::I64Mul => Some(Instruction::I64Mul),
        OpCode::I64DivS => Some(Instruction::I64DivS),
        OpCode::I64DivU => Some(Instruction::I64DivU),
        OpCode::I64RemS => Some(Instruction::I64RemS),
        OpCode::I64RemU => Some(Instruction::I64RemU),
        OpCode::I64And => Some(Instruction::I64And),
        OpCode::I64Or => Some(Instruction::I64Or),
        OpCode::I64Xor => Some(Instruction::I64Xor),
        OpCode::I64Shl => Some(Instruction::I64Shl),
        OpCode::I64ShrS => Some(Instruction::I64ShrS),
        OpCode::I64ShrU => Some(Instruction::I64ShrU),
        OpCode::I64Rotl => Some(Instruction::I64Rotl),
        OpCode::I64Rotr => Some(Instruction::I64Rotr),
        OpCode::F32Abs => Some(Instruction::F32Abs),
        OpCode::F32Neg => Some(Instruction::F32Neg),
        OpCode::F32Ceil => Some(Instruction::F32Ceil),
        OpCode::F32Floor => Some(Instruction::F32Floor),
        OpCode::F32Trunc => Some(Instruction::F32Trunc),
        OpCode::F32Nearest => Some(Instruction::F32Nearest),
        OpCode::F32Sqrt => Some(Instruction::F32Sqrt),
        OpCode::F32Add => Some(Instruction::F32Add),
        OpCode::F32Sub => Some(Instruction::F32Sub),
        OpCode::F32Mul => Some(Instruction::F32Mul),
        OpCode::F32Div => Some(Instruction::F32Div),
        OpCode::F32Min => Some(Instruction::F32Min),
        OpCode::F32Max => Some(Instruction::F32Max),
        OpCode::F32Copysign => Some(Instruction::F32Copysign),
        OpCode::F64Abs => Some(Instruction::F64Abs),
        OpCode::F64Neg => Some(Instruction::F64Neg),
        OpCode::F64Ceil => Some(Instruction::F64Ceil),
        OpCode::F64Floor => Some(Instruction::F64Floor),
        OpCode::F64Trunc => Some(Instruction::F64Trunc),
        OpCode::F64Nearest => Some(Instruction::F64Nearest),
        OpCode::F64Sqrt => Some(Instruction::F64Sqrt),
        OpCode::F64Add => Some(Instruction::F64Add),
        OpCode::F64Sub => Some(Instruction::F64Sub),
        OpCode::F64Mul => Some(Instruction::F64Mul),
        OpCode::F64Div => Some(Instruction::F64Div),
        OpCode::F64Min => Some(Instruction::F64Min),
        OpCode::F64Max => Some(Instruction::F64Max),
        OpCode::F64Copysign => Some(Instruction::F64Copysign),
        OpCode::I32WrapI64 => Some(Instruction::I32WrapI64),
        OpCode::I32TruncSF32 => Some(Instruction::I32TruncSF32),
        OpCode::I32TruncUF32 => Some(Instruction::I32TruncUF32),
        OpCode::I32TruncSF64 => Some(Instruction::I32TruncSF64),
        OpCode::I32TruncUF64 => Some(Instruction::I32TruncUF64),
        OpCode::I64ExtendSI32 => Some(Instruction::I64ExtendSI32),
        OpCode::I64ExtendUI32 => Some(Instruction::I64ExtendUI32),
        OpCode::I64TruncSF32 => Some(Instruction::I64TruncSF32),
        OpCode::I64TruncUF32 => Some(Instruction::I64TruncUF32),
        OpCode::I64TruncSF64 => Some(Instruction::I64TruncSF64),
        OpCode::I64TruncUF64 => Some(Instruction::I64TruncUF64),
        OpCode::F32ConvertSI32 => Some(Instruction::F32ConvertSI32),
        OpCode::F32ConvertUI32 => Some(Instruction::F32ConvertUI32),
        OpCode::F32ConvertSI64 => Some(Instruction::F32ConvertSI64),
        OpCode::F32ConvertUI64 => Some(Instruction::F32ConvertUI64),
        OpCode::F32DemoteF64 => Some(Instruction::F32DemoteF64),
        OpCode::F64ConvertSI32 => Some(Instruction::F64ConvertSI32),
        OpCode::F64ConvertUI32 => Some(Instruction::F64ConvertUI32),
        OpCode::F64ConvertSI64 => Some(Instruction::F64ConvertSI64),
        OpCode::F64ConvertUI64 => Some(Instruction::F64ConvertUI64),
        OpCode::F64PromoteF32 => Some(Instruction::F64PromoteF32),
        OpCode::I32ReinterpretF32 => Some(Instruction::I32ReinterpretF32),
        OpCode::I64ReinterpretF64 => Some(Instruction::I64ReinterpretF64),
        OpCode::F32ReinterpretI32 => Some(Instruction::F32ReinterpretI32),
        OpCode::F64ReinterpretI64 => Some(Instruction::F64ReinterpretI64),
    }
}

#[derive(Debug, Clone, Copy, PartialEq, Eq, Structural)]
pub enum BrKind {
    Br,
    BrIfEqz,
    BrIfNez,
}

/// An open block of the source program with the labels that it owns.
#[derive(Debug, Clone, Copy, PartialEq, Eq, Structural)]
pub enum Block {
    Block { end_label: LabelID },
    Loop { head: LabelID },
    If { end_label: LabelID, if_not: LabelID },
    Else { end_label: LabelID },
}

impl Block {
    /// The label that a branch to this block goes to: the head of a loop,
    /// the end of any other block.
    pub open spec fn destination(self) -> LabelID {
        match self {
            Block::Block { end_label } => end_label,
            Block::Loop { head } => head,
            Block::If { end_label, .. } => end_label,
            Block::Else { end_label } => end_label,
        }
    }

    /// Whether the block owns the label.
    pub open spec fn owns(self, id: LabelID) -> bool {
        match self {
            Block::Block { end_label } => end_label == id,
            Block::Loop { head } => head == id,
            Block::If { end_label, if_not } => end_label == id || if_not == id,
            Block::Else { end_label } => end_label == id,
        }
    }

    /// Whether every label of the block is below `count`.
    pub open spec fn within(self, count: int) -> bool {
        forall|id: LabelID| self.owns(id) ==> id < count
    }

    pub fn br_destination(&self) -> (id: LabelID)
        ensures
            id == self.destination(),
    {
        match *self {
            Block::Block { end_label } => end_label,
            Block::Loop { head } => head,
            Block::If { end_label, .. } => end_label,
            Block::Else { end_label } => end_label,
        }
    }
}

/// The branch of a kind to a target.
pub open spec fn branch(kind: BrKind, pc: PC) -> Instruction {
    match kind {
        BrKind::Br => Instruction::Br(pc),
        BrKind::BrIfEqz => Instruction::BrIfEqz(pc),
        BrKind::BrIfNez => Instruction::BrIfNez(pc),
    }
}

/// The target of a branch.
pub open spec fn target(op: Instruction) -> Option<PC> {
    match op {
        Instruction::Br(pc) => Some(pc),
        Instruction::BrIfEqz(pc) => Some(pc),
        Instruction::BrIfNez(pc) => Some(pc),
        _ => None,
    }
}

/// A branch with its target replaced; any other instruction as it is.
pub open spec fn patch(op: Instruction, pc: PC) -> Instruction {
    match op {
        Instruction::Br(_) => Instruction::Br(pc),
        Instruction::BrIfEqz(_) => Instruction::BrIfEqz(pc),
        Instruction::BrIfNez(_) => Instruction::BrIfNez(pc),
        other => other,
    }
}

/// The code with the branches at the first `count` recorded places
/// rewritten to the target `pc`.
pub open spec fn patched(code: Seq<Instruction>, reloc: Seq<PC>, count: int, pc: PC) -> Seq<
    Instruction,
>
    decreases count,
{
    if count <= 0 {
        code
    } else {
        let before = patched(code, reloc, count - 1, pc);
        let at = reloc[count - 1] as int;
        if 0 <= at < before.len() {
            before.update(at, patch(before[at], pc))
        } else {
            before
        }
    }
}

/// What a label is: the place it stands for once it is resolved, and the
/// places of the branches that were emitted to it before.
pub struct LabelView {
    pub pc: Option<PC>,
    pub reloc: Seq<PC>,
}

/// What a sink is: the code emitted so far, the open blocks from the
/// outermost to the innermost, and the labels by their id.
pub struct SinkView {
    pub code: Seq<Instruction>,
    pub blocks: Seq<Block>,
    pub labels: Seq<LabelView>,
}

impl SinkView {
    /// The code is short enough for every place to differ from the
    /// placeholder, every recorded place is in the code, and every open
    /// block owns labels that exist.
    pub open spec fn inv(self) -> bool {
        &&& self.code.len() < PC_MAX
        &&& self.labels.len() <= u32::MAX
        &&& forall|id: int, k: int|
            0 <= id < self.labels.len() && 0 <= k < self.labels[id].reloc.len() ==> (
            #[trigger] self.labels[id].reloc[k]) < self.code.len()
        &&& forall|j: int|
            0 <= j < self.blocks.len() ==> (#[trigger] self.blocks[j]).within(
                self.labels.len() as int,
            )
    }

    /// Whether the branch at `at` was recorded as entry `k` of the label
    /// `id`, which is not resolved yet.
    pub open spec fn records(self, id: int, k: int, at: int) -> bool {
        &&& 0 <= id < self.labels.len()
        &&& self.labels[id].pc is None
        &&& 0 <= k < self.labels[id].reloc.len()
        &&& self.labels[id].reloc[k] == at
    }

    /// Whether the branch at `at` waits for a label to be resolved.
    pub open spec fn pending(self, at: int) -> bool {
        exists|id: int, k: int| self.records(id, k, at)
    }

    /// Every resolved label stands for a place in the code or directly
    /// behind it, and every branch goes to such a place or waits for its
    /// label.
    pub open spec fn settled(self) -> bool {
        &&& forall|id: int|
            0 <= id < self.labels.len() ==> match (#[trigger] self.labels[id]).pc {
                Some(pc) => pc <= self.code.len(),
                None => true,
            }
        &&& forall|at: int|
            0 <= at < self.code.len() ==> match target(#[trigger] self.code[at]) {
                Some(pc) => pc <= self.code.len() || self.pending(at),
                None => true,
            }
    }

    /// Whether an open block owns the label.
    pub open spec fn open_owner(self, id: int) -> bool {
        exists|j: int| 0 <= j < self.blocks.len() && (#[trigger] self.blocks[j]).owns(id as u32)
    }

    /// Every label that is not resolved yet belongs to an open block, and
    /// the head of every open loop is resolved.
    pub open spec fn owned(self) -> bool {
        &&& forall|id: int|
            0 <= id < self.labels.len() && (#[trigger] self.labels[id]).pc is None
                ==> self.open_owner(id)
        &&& forall|j: int|
            0 <= j < self.blocks.len() ==> match #[trigger] self.blocks[j] {
                Block::Loop { head } => head < self.labels.len() && self.labels[head as int].pc
                    is Some,
                _ => true,
            }
    }

    pub open spec fn new_label(self) -> (LabelID, SinkView) {
        (
            self.labels.len() as u32,
            SinkView {
                labels: self.labels.push(LabelView { pc: None, reloc: Seq::empty() }),
                ..self
            },
        )
    }

    pub open spec fn push_block(self, block: Block) -> SinkView {
        SinkView { blocks: self.blocks.push(block), ..self }
    }

    pub open spec fn pop_block(self) -> SinkView {
        SinkView { blocks: self.blocks.drop_last(), ..self }
    }

    /// The label that a branch of the given depth goes to.
    pub open spec fn br_destination(self, depth: u32) -> Option<LabelID> {
        if depth < self.blocks.len() {
            Some(self.blocks[self.blocks.len() - 1 - depth].destination())
        } else {
            None
        }
    }

    /// The target to emit for a branch to a label at the current place:
    /// the place of the label if it is resolved, else the placeholder, with
    /// the current place recorded.
    pub open spec fn ref_label(self, id: LabelID) -> (PC, SinkView) {
        let label = self.labels[id as int];
        match label.pc {
            Some(pc) => (pc, self),
            None => (
                PC_MAX,
                SinkView {
                    labels: self.labels.update(
                        id as int,
                        LabelView { reloc: label.reloc.push(self.code.len() as u32), ..label },
                    ),
                    ..self
                },
            ),
        }
    }

    /// The label stands for the current place from now on, and every branch
    /// recorded with it goes there.
    pub open spec fn resolve_label(self, id: LabelID) -> SinkView {
        let label = self.labels[id as int];
        SinkView {
            code: patched(self.code, label.reloc, label.reloc.len() as int, self.code.len() as u32),
            labels: self.labels.update(
                id as int,
                LabelView { pc: Some(self.code.len() as u32), ..label },
            ),
            ..self
        }
    }

    pub open spec fn emit(self, op: Instruction) -> SinkView {
        SinkView { code: self.code.push(op), ..self }
    }

    pub open spec fn emit_br(self, kind: BrKind, label: LabelID) -> SinkView {
        let (pc, sink) = self.ref_label(label);
        sink.emit(branch(kind, pc))
    }

    /// Whether the code and the labels that an instruction may add fit.
    pub open spec fn has_room(self, op: OpCode) -> bool {
        &&& self.labels.len() + 2 <= u32::MAX
        &&& self.code.len() + 2 + (match op {
            OpCode::BrTable(table, _) => table@.len(),
            _ => 0,
        }) < PC_MAX
    }

    /// One branch for each of the depths from `from` on.
    pub open spec fn emit_table(self, table: Seq<u32>, from: int) -> Option<SinkView>
        decreases table.len() - from,
    {
        if from < 0 || from >= table.len() {
            Some(self)
        } else {
            match self.br_destination(table[from]) {
                None => None,
                Some(dst) => self.emit_br(BrKind::Br, dst).emit_table(table, from + 1),
            }
        }
    }

    /// The sink after the translation of one source instruction, or `None`
    /// where the instruction is invalid: a branch leaves more blocks than
    /// are open, an `Else` does not follow an `If`, an `End` closes nothing,
    /// or the result does not fit.
    pub open spec fn apply(self, op: OpCode) -> Option<SinkView> {
        if !self.has_room(op) {
            None
        } else {
            match op {
                OpCode::Nop => Some(self),
                OpCode::Block(_) => {
                    let (end_label, sink) = self.new_label();
                    Some(sink.push_block(Block::Block { end_label }))
                },
                OpCode::Loop(_) => {
                    let (head, sink) = self.new_label();
                    Some(sink.push_block(Block::Loop { head }).resolve_label(head))
                },
                OpCode::If(_) => {
                    let (if_not, first) = self.new_label();
                    let (end_label, sink) = first.new_label();
                    Some(
                        sink.push_block(Block::If { end_label, if_not }).emit_br(
                            BrKind::BrIfEqz,
                            if_not,
                        ),
                    )
                },
                OpCode::Else => if self.blocks.len() == 0 {
                    None
                } else {
                    match self.blocks.last() {
                        Block::If { end_label, if_not } => Some(
                            self.pop_block().emit_br(BrKind::Br, end_label).resolve_label(
                                if_not,
                            ).push_block(Block::Else { end_label }),
                        ),
                        _ => None,
                    }
                },
                OpCode::End => if self.blocks.len() == 0 {
                    None
                } else {
                    let popped = self.pop_block();
                    let sink = match self.blocks.last() {
                        Block::Block { end_label } => popped.resolve_label(end_label),
                        Block::Loop { .. } => popped,
                        Block::If { end_label, if_not } => popped.resolve_label(
                            if_not,
                        ).resolve_label(end_label),
                        Block::Else { end_label } => popped.resolve_label(end_label),
                    };
                    if sink.blocks.len() == 0 {
                        Some(sink.emit(Instruction::Return))
                    } else {
                        Some(sink)
                    }
                },
                OpCode::Br(depth) => match self.br_destination(depth) {
                    None => None,
                    Some(dst) => Some(self.emit_br(BrKind::Br, dst)),
                },
                OpCode::BrIf(depth) => match self.br_destination(depth) {
                    None => None,
                    Some(dst) => Some(self.emit_br(BrKind::BrIfNez, dst)),
                },
                OpCode::BrTable(table, default) => match self.emit(
                    Instruction::BrTable { count: table@.len() as u32 },
                ).emit_table(table@, 0) {
                    None => None,
                    Some(sink) => match sink.br_destination(default) {
                        None => None,
                        Some(dst) => Some(sink.emit_br(BrKind::Br, dst)),
                    },
                },
                other => match plain(other) {
                    Some(op) => Some(self.emit(op)),
                    None => None,
                },
            }
        }
    }

    /// The sink after the translation of the source instructions from
    /// `from` on.
    pub open spec fn apply_all(self, code: Seq<OpCode>, from: int) -> Option<SinkView>
        decreases code.len() - from,
    {
        if from < 0 || from >= code.len() {
            Some(self)
        } else {
            match self.apply(code[from]) {
                None => None,
                Some(sink) => sink.apply_all(code, from + 1),
            }
        }
    }
}

/// Every branch has its target in the code or directly behind it.
pub open spec fn resolved(code: Seq<Instruction>) -> bool {
    forall|at: int|
        0 <= at < code.len() ==> match target(#[trigger] code[at]) {
            Some(pc) => pc <= code.len(),
            None => true,
        }
}

/// The sink that a translation starts from: no code, and the block of the
/// function itself open.
pub open spec fn initial() -> SinkView {
    SinkView {
        code: Seq::empty(),
        blocks: seq![Block::Block { end_label: 0 }],
        labels: seq![LabelView { pc: None, reloc: Seq::empty() }],
    }
}

/// The flat code of a function body, or `None` where the body is invalid
/// or leaves a block open.
pub open spec fn translate(code: Seq<OpCode>) -> Option<Seq<Instruction>> {
    match initial().apply_all(code, 0) {
        None => None,
        Some(sink) => if sink.blocks.len() == 0 {
            Some(sink.code)
        } else {
            None
        },
    }
}

#[derive(Debug)]
pub struct Label {
    pub pc: Option<PC>,
    pub reloc: Vec<PC>,
}

impl View for Label {
    type V = LabelView;

    open spec fn view(&self) -> LabelView {
        LabelView { pc: self.pc, reloc: self.reloc@ }
    }
}

/// Collects the flat code of one function while it is translated.
#[derive(Debug)]
pub struct Sink {
    code: Vec<Instruction>,
    blocks: Vec<Block>,
    labels: Vec<Label>,
}

impl View for Sink {
    type V = SinkView;

    closed spec fn view(&self) -> SinkView {
        SinkView {
            code: self.code@,
            blocks: self.blocks@,
            labels: Seq::new(self.labels@.len(), |i: int| self.labels@[i]@),
        }
    }
}

fn invalid(text: &str) -> (e: Error)
    ensures
        e is ValidationError,
{
    Error::ValidationError(text.to_owned())
}

impl Sink {
    pub fn new(size: usize) -> (sink: Sink)
        ensures
            sink@ == (SinkView { code: Seq::empty(), blocks: Seq::empty(), labels: Seq::empty() }),
    {
        let sink = Sink { code: Vec::with_capacity(size), blocks: Vec::new(), labels: Vec::new() };
        assert(sink@.labels =~= Seq::empty());
        sink
    }

    /// The place of the next instruction.
    pub fn pc(&self) -> (pc: PC)
        requires
            self@.inv(),
        ensures
            pc == self@.code.len(),
    {
        self.code.len() as u32
    }

    pub fn push_block(&mut self, block: Block)
        ensures
            final(self)@ == old(self)@.push_block(block),
    {
        self.blocks.push(block);
    }

    /// The open block that a branch of the given depth goes to.
    pub fn ref_block(&self, depth: u32) -> (res: Result<&Block, Error>)
        ensures
            depth >= self@.blocks.len() ==> res is Err && res->Err_0 is ValidationError,
            depth < self@.blocks.len() ==> res == Result::<&Block, Error>::Ok(
                &self@.blocks[self@.blocks.len() - 1 - depth],
            ),
    {
        if depth as usize >= self.blocks.len() {
            return Err(invalid("missing block"));
        }
        let idx = self.blocks.len() - 1 - depth as usize;
        Ok(&self.blocks[idx])
    }

    pub fn pop_block(&mut self) -> (res: Result<Block, Error>)
        ensures
            old(self)@.blocks.len() == 0 ==> res is Err && res->Err_0 is ValidationError && final(self)@ == old(self)@,
            old(self)@.blocks.len() > 0 ==> res == Result::<Block, Error>::Ok(
                old(self)@.blocks.last(),
            ) && final(self)@ == old(self)@.pop_block(),
    {
        match self.blocks.pop() {
            Some(block) => Ok(block),
            None => Err(invalid("missing block")),
        }
    }

    pub fn is_stack_empty(&self) -> (res: bool)
        ensures
            res == (self@.blocks.len() == 0),
    {
        self.blocks.len() == 0
    }

    pub fn br_destination(&self, depth: u32) -> (res: Result<LabelID, Error>)
        ensures
            match self@.br_destination(depth) {
                Some(id) => res == Result::<LabelID, Error>::Ok(id),
                None => res is Err && res->Err_0 is ValidationError,
            },
    {
        let block = self.ref_block(depth)?;
        Ok(block.br_destination())
    }

    /// A new label that stands for no place yet.
    pub fn new_label(&mut self) -> (id: LabelID)
        requires
            old(self)@.labels.len() < u32::MAX,
        ensures
            (id, final(self)@) == old(self)@.new_label(),
    {
        let id = self.labels.len() as LabelID;
        self.labels.push(Label { pc: None, reloc: Vec::new() });
        assert(self@.labels =~= old(self)@.labels.push(
            LabelView { pc: None, reloc: Seq::empty() },
        ));
        id
    }

    /// The target to emit for a branch to the label at the current place.
    pub fn ref_label(&mut self, id: LabelID) -> (pc: PC)
        requires
            old(self)@.inv(),
            id < old(self)@.labels.len(),
        ensures
            (pc, final(self)@) == old(self)@.ref_label(id),
    {
        let ref_pc = self.pc();
        match self.labels[id as usize].pc {
            Some(pc) => pc,
            None => {
                self.labels[id as usize].reloc.push(ref_pc);
                assert(self@.labels =~= old(self)@.ref_label(id).1.labels);
                PC_MAX
            },
        }
    }

    /// Makes the label stand for the current place and rewrites every
    /// branch that was recorded with it.
    pub fn resolve_label(&mut self, id: LabelID)
        requires
            old(self)@.inv(),
            id < old(self)@.labels.len(),
        ensures
            final(self)@ == old(self)@.resolve_label(id),
    {
        let label_pc = self.pc();
        self.labels[id as usize].pc = Some(label_pc);
        let count = self.labels[id as usize].reloc.len();
        let ghost reloc = old(self)@.labels[id as int].reloc;
        let mut k: usize = 0;
        while k < count
            invariant
                k <= count,
                count == reloc.len(),
                id < self.labels@.len(),
                self.labels@[id as int].reloc@ == reloc,
                self.labels@ == old(self).labels@.update(
                    id as int,
                    Label { pc: Some(label_pc), reloc: old(self).labels@[id as int].reloc },
                ),
                self.blocks@ == old(self).blocks@,
                self.code@.len() == old(self).code@.len(),
                self.code@ == patched(old(self).code@, reloc, k as int, label_pc),
                forall|j: int| 0 <= j < reloc.len() ==> (#[trigger] reloc[j]) < old(self).code@.len(),
            decreases count - k,
        {
            let at = self.labels[id as usize].reloc[k] as usize;
            let op = match self.code[at] {
                Instruction::Br(_) => Instruction::Br(label_pc),
                Instruction::BrIfEqz(_) => Instruction::BrIfEqz(label_pc),
                Instruction::BrIfNez(_) => Instruction::BrIfNez(label_pc),
                other => other,
            };
            self.code[at] = op;
            k = k + 1;
        }
        assert(self@.labels =~= old(self)@.resolve_label(id).labels);
    }

    /// Emits a branch of the given kind to the label.
    pub fn emit_br(&mut self, kind: BrKind, label: LabelID)
        requires
            old(self)@.inv(),
            label < old(self)@.labels.len(),
        ensures
            final(self)@ == old(self)@.emit_br(kind, label),
    {
        let pc = self.ref_label(label);
        let op = match kind {
            BrKind::Br => Instruction::Br(pc),
            BrKind::BrIfEqz => Instruction::BrIfEqz(pc),
            BrKind::BrIfNez => Instruction::BrIfNez(pc),
        };
        self.code.push(op);
    }

    pub fn emit(&mut self, op: Instruction)
        ensures
            final(self)@ == old(self)@.emit(op),
    {
        self.code.push(op);
    }

    pub fn into_inner(self) -> (code: Vec<Instruction>)
        ensures
            code@ == self@.code,
    {
        self.code
    }
}

impl Sink {
    /// Whether what an instruction may add fits.
    fn has_room(&self, op: &OpCode) -> (res: bool)
        requires
            self@.inv(),
        ensures
            res == self@.has_room(*op),
    {
        let extra = match op {
            OpCode::BrTable(table, _) => table.len(),
            _ => 0,
        };
        let limit = PC_MAX as usize;
        self.labels.len() <= limit - 2 && extra < limit - 2 && self.code.len() < limit - 2 - extra
    }

    /// Emits one branch for each depth of the table.
    fn emit_table(&mut self, table: &Vec<u32>) -> (res: Result<(), Error>)
        requires
            old(self)@.inv(),
            old(self)@.code.len() + table@.len() < PC_MAX,
        ensures
            match old(self)@.emit_table(table@, 0) {
                Some(sink) => res is Ok && final(self)@ == sink && sink.inv() && sink.code.len()
                    == old(self)@.code.len() + table@.len(),
                None => res is Err && res->Err_0 is ValidationError,
            },
    {
        let mut at: usize = 0;
        while at < table.len()
            invariant
                at <= table@.len(),
                self@.inv(),
                self@.code.len() == old(self)@.code.len() + at,
                old(self)@.code.len() + table@.len() < PC_MAX,
                self@.emit_table(table@, at as int) == old(self)@.emit_table(table@, 0),
            decreases table@.len() - at,
        {
            let dst = self.br_destination(table[at])?;
            proof {
                lemma_destination_exists(self@, table@[at as int]);
                lemma_inv_emit_br(self@, BrKind::Br, dst);
            }
            self.emit_br(BrKind::Br, dst);
            at = at + 1;
        }
        Ok(())
    }
}

/// A label of an open block exists.
proof fn lemma_destination_exists(sink: SinkView, depth: u32)
    requires
        sink.inv(),
        sink.br_destination(depth) is Some,
    ensures
        sink.br_destination(depth)->Some_0 < sink.labels.len(),
{
    let block = sink.blocks[sink.blocks.len() - 1 - depth];
    assert(block.within(sink.labels.len() as int));
    assert(block.owns(block.destination()));
}

proof fn lemma_inv_new_label(sink: SinkView)
    requires
        sink.inv(),
        sink.labels.len() < u32::MAX,
    ensures
        sink.new_label().1.inv(),
        sink.new_label().0 == sink.labels.len(),
{
    let after = sink.new_label().1;
    assert forall|id: int, k: int|
        0 <= id < after.labels.len() && 0 <= k < after.labels[id].reloc.len() implies (
    #[trigger] after.labels[id].reloc[k]) < after.code.len() by {
        if id < sink.labels.len() {
            assert(after.labels[id] == sink.labels[id]);
        }
    }
    assert forall|j: int| 0 <= j < after.blocks.len() implies (#[trigger] after.blocks[j]).within(
        after.labels.len() as int,
    ) by {
        assert(sink.blocks[j].within(sink.labels.len() as int));
    }
}

proof fn lemma_inv_push_block(sink: SinkView, block: Block)
    requires
        sink.inv(),
        block.within(sink.labels.len() as int),
    ensures
        sink.push_block(block).inv(),
{
    let after = sink.push_block(block);
    assert forall|j: int| 0 <= j < after.blocks.len() implies (#[trigger] after.blocks[j]).within(
        after.labels.len() as int,
    ) by {
        if j < sink.blocks.len() {
            assert(after.blocks[j] == sink.blocks[j]);
        }
    }
}

proof fn lemma_inv_pop_block(sink: SinkView)
    requires
        sink.inv(),
        sink.blocks.len() > 0,
    ensures
        sink.pop_block().inv(),
        sink.blocks.last().within(sink.labels.len() as int),
{
    let after = sink.pop_block();
    assert forall|j: int| 0 <= j < after.blocks.len() implies (#[trigger] after.blocks[j]).within(
        after.labels.len() as int,
    ) by {
        assert(after.blocks[j] == sink.blocks[j]);
    }
}

proof fn lemma_inv_emit(sink: SinkView, op: Instruction)
    requires
        sink.inv(),
        sink.code.len() + 1 < PC_MAX,
    ensures
        sink.emit(op).inv(),
{
    let after = sink.emit(op);
    assert forall|id: int, k: int|
        0 <= id < after.labels.len() && 0 <= k < after.labels[id].reloc.len() implies (
    #[trigger] after.labels[id].reloc[k]) < after.code.len() by {
        assert(sink.labels[id].reloc[k] < sink.code.len());
    }
}

proof fn lemma_inv_emit_br(sink: SinkView, kind: BrKind, label: LabelID)
    requires
        sink.inv(),
        sink.code.len() + 1 < PC_MAX,
        label < sink.labels.len(),
    ensures
        sink.emit_br(kind, label).inv(),
        sink.emit_br(kind, label).code.len() == sink.code.len() + 1,
        sink.emit_br(kind, label).blocks == sink.blocks,
        sink.emit_br(kind, label).labels.len() == sink.labels.len(),
{
    let after = sink.emit_br(kind, label);
    assert forall|id: int, k: int|
        0 <= id < after.labels.len() && 0 <= k < after.labels[id].reloc.len() implies (
    #[trigger] after.labels[id].reloc[k]) < after.code.len() by {
        if id == label && sink.labels[id].pc is None {
            if k < sink.labels[id].reloc.len() {
                assert(after.labels[id].reloc[k] == sink.labels[id].reloc[k]);
            }
        } else {
            assert(after.labels[id] == sink.labels[id]);
        }
        if k < sink.labels[id].reloc.len() {
            assert(sink.labels[id].reloc[k] < sink.code.len());
        }
    }
}

proof fn lemma_patched_len(code: Seq<Instruction>, reloc: Seq<PC>, count: int, pc: PC)
    ensures
        patched(code, reloc, count, pc).len() == code.len(),
    decreases count,
{
    if count > 0 {
        lemma_patched_len(code, reloc, count - 1, pc);
    }
}

proof fn lemma_inv_resolve_label(sink: SinkView, id: LabelID)
    requires
        sink.inv(),
        id < sink.labels.len(),
    ensures
        sink.resolve_label(id).inv(),
        sink.resolve_label(id).code.len() == sink.code.len(),
        sink.resolve_label(id).blocks == sink.blocks,
        sink.resolve_label(id).labels.len() == sink.labels.len(),
{
    let after = sink.resolve_label(id);
    let label = sink.labels[id as int];
    lemma_patched_len(sink.code, label.reloc, label.reloc.len() as int, sink.code.len() as u32);
    assert forall|other: int, k: int|
        0 <= other < after.labels.len() && 0 <= k < after.labels[other].reloc.len() implies (
    #[trigger] after.labels[other].reloc[k]) < after.code.len() by {
        assert(after.labels[other].reloc == sink.labels[other].reloc);
        assert(sink.labels[other].reloc[k] < sink.code.len());
    }
}

proof fn lemma_settled_new_label(sink: SinkView)
    requires
        sink.inv(),
        sink.settled(),
    ensures
        sink.new_label().1.settled(),
{
    let after = sink.new_label().1;
    assert forall|id: int| 0 <= id < after.labels.len() implies match (
    #[trigger] after.labels[id]).pc {
        Some(pc) => pc <= after.code.len(),
        None => true,
    } by {
        if id < sink.labels.len() {
            assert(after.labels[id] == sink.labels[id]);
        }
    }
    assert forall|at: int| 0 <= at < after.code.len() implies match target(
        #[trigger] after.code[at],
    ) {
        Some(pc) => pc <= after.code.len() || after.pending(at),
        None => true,
    } by {
        if target(sink.code[at]) is Some && sink.pending(at) {
            let (id, k) = choose|id: int, k: int| sink.records(id, k, at);
            assert(after.labels[id] == sink.labels[id]);
            assert(after.records(id, k, at));
        }
    }
}

proof fn lemma_settled_blocks(sink: SinkView, blocks: Seq<Block>)
    requires
        sink.settled(),
    ensures
        (SinkView { blocks, ..sink }).settled(),
{
    let after = SinkView { blocks, ..sink };
    assert forall|at: int| 0 <= at < after.code.len() implies match target(
        #[trigger] after.code[at],
    ) {
        Some(pc) => pc <= after.code.len() || after.pending(at),
        None => true,
    } by {
        if target(sink.code[at]) is Some && sink.pending(at) {
            let (id, k) = choose|id: int, k: int| sink.records(id, k, at);
            assert(after.records(id, k, at));
        }
    }
}

proof fn lemma_settled_emit(sink: SinkView, op: Instruction)
    requires
        sink.inv(),
        sink.settled(),
        target(op) is None,
    ensures
        sink.emit(op).settled(),
{
    let after = sink.emit(op);
    assert forall|at: int| 0 <= at < after.code.len() implies match target(
        #[trigger] after.code[at],
    ) {
        Some(pc) => pc <= after.code.len() || after.pending(at),
        None => true,
    } by {
        if at < sink.code.len() {
            assert(after.code[at] == sink.code[at]);
            if target(sink.code[at]) is Some && sink.pending(at) {
                let (id, k) = choose|id: int, k: int| sink.records(id, k, at);
                assert(after.records(id, k, at));
            }
        }
    }
}

proof fn lemma_settled_emit_br(sink: SinkView, kind: BrKind, label: LabelID)
    requires
        sink.inv(),
        sink.settled(),
        label < sink.labels.len(),
    ensures
        sink.emit_br(kind, label).settled(),
        forall|id: int|
            0 <= id < sink.labels.len() ==> (#[trigger] sink.emit_br(kind, label).labels[id]).pc
                == sink.labels[id].pc,
{
    let after = sink.emit_br(kind, label);
    let (pc, mid) = sink.ref_label(label);
    assert forall|id: int| 0 <= id < after.labels.len() implies match (
    #[trigger] after.labels[id]).pc {
        Some(pc) => pc <= after.code.len(),
        None => true,
    } by {
        assert(after.labels[id].pc == sink.labels[id].pc);
    }
    assert forall|at: int| 0 <= at < after.code.len() implies match target(
        #[trigger] after.code[at],
    ) {
        Some(pc) => pc <= after.code.len() || after.pending(at),
        None => true,
    } by {
        if at < sink.code.len() {
            assert(after.code[at] == sink.code[at]);
            if target(sink.code[at]) is Some && sink.pending(at) {
                let (id, k) = choose|id: int, k: int| sink.records(id, k, at);
                assert(after.labels[id].reloc[k] == sink.labels[id].reloc[k]);
                assert(after.records(id, k, at));
            }
        } else {
            assert(after.code[at] == branch(kind, pc));
            if sink.labels[label as int].pc is None {
                assert(after.records(
                    label as int,
                    sink.labels[label as int].reloc.len() as int,
                    at,
                ));
            }
        }
    }
}

/// What rewriting leaves at a place: the branch with the new target if the
/// place is among the recorded ones, else what was there.
proof fn lemma_patched_at(code: Seq<Instruction>, reloc: Seq<PC>, count: int, pc: PC, at: int)
    requires
        0 <= count <= reloc.len(),
        0 <= at < code.len(),
    ensures
        patched(code, reloc, count, pc).len() == code.len(),
        (exists|k: int| 0 <= k < count && reloc[k] == at) ==> patched(code, reloc, count, pc)[at]
            == patch(code[at], pc),
        !(exists|k: int| 0 <= k < count && reloc[k] == at) ==> patched(code, reloc, count, pc)[at]
            == code[at],
    decreases count,
{
    if count > 0 {
        lemma_patched_at(code, reloc, count - 1, pc, at);
        lemma_patched_len(code, reloc, count - 1, pc);
        if reloc[count - 1] == at {
            assert(reloc[count - 1] == at && 0 <= count - 1 < count);
        } else if exists|k: int| 0 <= k < count && reloc[k] == at {
            let k = choose|k: int| 0 <= k < count && reloc[k] == at;
            assert(0 <= k < count - 1 && reloc[k] == at);
        }
    }
}

proof fn lemma_settled_resolve_label(sink: SinkView, id: LabelID)
    requires
        sink.inv(),
        sink.settled(),
        id < sink.labels.len(),
    ensures
        sink.resolve_label(id).settled(),
        forall|other: int|
            0 <= other < sink.labels.len() && other != id ==> (#[trigger] sink.resolve_label(
                id,
            ).labels[other]) == sink.labels[other],
        sink.resolve_label(id).labels[id as int].pc is Some,
{
    let after = sink.resolve_label(id);
    let label = sink.labels[id as int];
    let here = sink.code.len() as u32;
    lemma_patched_len(sink.code, label.reloc, label.reloc.len() as int, here);
    assert forall|at: int| 0 <= at < after.code.len() implies match target(
        #[trigger] after.code[at],
    ) {
        Some(pc) => pc <= after.code.len() || after.pending(at),
        None => true,
    } by {
        lemma_patched_at(sink.code, label.reloc, label.reloc.len() as int, here, at);
        if exists|k: int| 0 <= k < label.reloc.len() && label.reloc[k] == at {
        } else {
            assert(after.code[at] == sink.code[at]);
            if target(sink.code[at]) is Some && sink.pending(at) {
                let (other, k) = choose|other: int, k: int| sink.records(other, k, at);
                if other == id {
                    assert(0 <= k < label.reloc.len() && label.reloc[k] == at);
                } else {
                    assert(after.labels[other] == sink.labels[other]);
                    assert(after.records(other, k, at));
                }
            }
        }
    }
}

/// A plain instruction is no branch.
proof fn lemma_plain_no_target(op: OpCode)
    ensures
        plain(op) is Some ==> target(plain(op)->Some_0) is None,
{
}

proof fn lemma_table_sound(sink: SinkView, table: Seq<u32>, from: int)
    requires
        sink.inv(),
        sink.settled(),
        sink.owned(),
        0 <= from <= table.len(),
        sink.code.len() + (table.len() - from) < PC_MAX,
        sink.emit_table(table, from) is Some,
    ensures
        sink.emit_table(table, from)->Some_0.inv(),
        sink.emit_table(table, from)->Some_0.settled(),
        sink.emit_table(table, from)->Some_0.owned(),
        sink.emit_table(table, from)->Some_0.blocks == sink.blocks,
        sink.emit_table(table, from)->Some_0.code.len() == sink.code.len() + (table.len() - from),
        sink.emit_table(table, from)->Some_0.labels.len() == sink.labels.len(),
    decreases table.len() - from,
{
    if from < table.len() {
        let dst = sink.br_destination(table[from])->Some_0;
        lemma_destination_exists(sink, table[from]);
        lemma_branch_sound(sink, BrKind::Br, dst);
        lemma_table_sound(sink.emit_br(BrKind::Br, dst), table, from + 1);
    }
}

/// Emitting a branch to a label that exists keeps everything in order.
proof fn lemma_branch_sound(sink: SinkView, kind: BrKind, label: LabelID)
    requires
        sink.inv(),
        sink.settled(),
        sink.owned(),
        sink.code.len() + 1 < PC_MAX,
        label < sink.labels.len(),
    ensures
        sink.emit_br(kind, label).inv(),
        sink.emit_br(kind, label).settled(),
        sink.emit_br(kind, label).owned(),
        sink.emit_br(kind, label).blocks == sink.blocks,
        sink.emit_br(kind, label).code.len() == sink.code.len() + 1,
        sink.emit_br(kind, label).labels.len() == sink.labels.len(),
{
    let after = sink.emit_br(kind, label);
    lemma_inv_emit_br(sink, kind, label);
    lemma_settled_emit_br(sink, kind, label);
    assert forall|id: int|
        0 <= id < after.labels.len() && (#[trigger] after.labels[id]).pc is None implies after.open_owner(
        id,
    ) by {
        assert(sink.labels[id].pc is None);
        assert(sink.open_owner(id));
        let j = choose|j: int| 0 <= j < sink.blocks.len() && (#[trigger] sink.blocks[j]).owns(id as u32);
        assert(after.blocks[j].owns(id as u32));
    }
    assert forall|j: int| 0 <= j < after.blocks.len() implies match #[trigger] after.blocks[j] {
        Block::Loop { head } => head < after.labels.len() && after.labels[head as int].pc is Some,
        _ => true,
    } by {
        match sink.blocks[j] {
            Block::Loop { head } => {
                assert(after.labels[head as int].pc == sink.labels[head as int].pc);
            },
            _ => {},
        }
    }
}

/// Resolving the labels of a block that was just closed leaves every
/// unresolved label with an open block.
proof fn lemma_close_sound(sink: SinkView, closed: Block, after: SinkView)
    requires
        sink.inv(),
        sink.owned(),
        sink.blocks.len() > 0,
        closed == sink.blocks.last(),
        after.blocks == sink.blocks.drop_last(),
        after.labels.len() == sink.labels.len(),
        forall|id: int|
            0 <= id < sink.labels.len() && (#[trigger] after.labels[id]).pc is None
                ==> sink.labels[id].pc is None && !closed.owns(id as u32),
        forall|id: int|
            0 <= id < sink.labels.len() && (#[trigger] sink.labels[id]).pc is Some
                ==> after.labels[id].pc is Some,
    ensures
        after.owned(),
{
    assert forall|id: int|
        0 <= id < after.labels.len() && (#[trigger] after.labels[id]).pc is None implies after.open_owner(
        id,
    ) by {
        assert(sink.labels[id].pc is None);
        assert(sink.open_owner(id));
        let j = choose|j: int| 0 <= j < sink.blocks.len() && (#[trigger] sink.blocks[j]).owns(id as u32);
        assert(j < sink.blocks.len() - 1);
        assert(after.blocks[j] == sink.blocks[j]);
        assert(after.blocks[j].owns(id as u32));
    }
    assert forall|j: int| 0 <= j < after.blocks.len() implies match #[trigger] after.blocks[j] {
        Block::Loop { head } => head < after.labels.len() && after.labels[head as int].pc is Some,
        _ => true,
    } by {
        assert(after.blocks[j] == sink.blocks[j]);
        match sink.blocks[j] {
            Block::Loop { head } => {
                assert(sink.labels[head as int].pc is Some);
            },
            _ => {},
        }
    }
}

/// Opening a block that owns the labels made for it keeps every unresolved
/// label with an open block.
proof fn lemma_open_sound(sink: SinkView, block: Block, after: SinkView)
    requires
        sink.owned(),
        after.blocks == sink.blocks.push(block),
        after.labels.len() >= sink.labels.len(),
        forall|id: int|
            0 <= id < sink.labels.len() ==> (#[trigger] after.labels[id]).pc
                == sink.labels[id].pc,
        forall|id: int|
            sink.labels.len() <= id < after.labels.len() && (#[trigger] after.labels[id]).pc
                is None ==> block.owns(id as u32),
        match block {
            Block::Loop { head } => head < after.labels.len() && after.labels[head as int].pc
                is Some,
            _ => true,
        },
    ensures
        after.owned(),
{
    assert forall|id: int|
        0 <= id < after.labels.len() && (#[trigger] after.labels[id]).pc is None implies after.open_owner(
        id,
    ) by {
        if id < sink.labels.len() {
            assert(sink.labels[id].pc is None);
            assert(sink.open_owner(id));
            let j = choose|j: int|
                0 <= j < sink.blocks.len() && (#[trigger] sink.blocks[j]).owns(id as u32);
            assert(after.blocks[j] == sink.blocks[j]);
            assert(after.blocks[j].owns(id as u32));
        } else {
            assert(after.blocks[sink.blocks.len() as int] == block);
            assert(after.blocks[sink.blocks.len() as int].owns(id as u32));
        }
    }
    assert forall|j: int| 0 <= j < after.blocks.len() implies match #[trigger] after.blocks[j] {
        Block::Loop { head } => head < after.labels.len() && after.labels[head as int].pc is Some,
        _ => true,
    } by {
        if j < sink.blocks.len() {
            assert(after.blocks[j] == sink.blocks[j]);
            match sink.blocks[j] {
                Block::Loop { head } => {
                    assert(after.labels[head as int].pc == sink.labels[head as int].pc);
                },
                _ => {},
            }
        }
    }
}

/// The translation of one instruction keeps everything in order.
pub proof fn lemma_apply_sound(sink: SinkView, op: OpCode)
    requires
        sink.inv(),
        sink.settled(),
        sink.owned(),
        sink.apply(op) is Some,
    ensures
        sink.apply(op)->Some_0.inv(),
        sink.apply(op)->Some_0.settled(),
        sink.apply(op)->Some_0.owned(),
{
    let after = sink.apply(op)->Some_0;
    match op {
        OpCode::Nop => {},
        OpCode::Block(_) => {
            let (end_label, made) = sink.new_label();
            lemma_inv_new_label(sink);
            lemma_settled_new_label(sink);
            let block = Block::Block { end_label };
            lemma_inv_push_block(made, block);
            lemma_settled_blocks(made, made.blocks.push(block));
            lemma_open_sound(sink, block, after);
        },
        OpCode::Loop(_) => {
            let (head, made) = sink.new_label();
            lemma_inv_new_label(sink);
            lemma_settled_new_label(sink);
            let block = Block::Loop { head };
            lemma_inv_push_block(made, block);
            lemma_settled_blocks(made, made.blocks.push(block));
            let pushed = made.push_block(block);
            lemma_inv_resolve_label(pushed, head);
            lemma_settled_resolve_label(pushed, head);
            lemma_open_sound(sink, block, after);
        },
        OpCode::If(_) => {
            let (if_not, first) = sink.new_label();
            lemma_inv_new_label(sink);
            lemma_settled_new_label(sink);
            let (end_label, made) = first.new_label();
            lemma_inv_new_label(first);
            lemma_settled_new_label(first);
            let block = Block::If { end_label, if_not };
            lemma_inv_push_block(made, block);
            lemma_settled_blocks(made, made.blocks.push(block));
            let pushed = made.push_block(block);
            lemma_inv_emit_br(pushed, BrKind::BrIfEqz, if_not);
            lemma_settled_emit_br(pushed, BrKind::BrIfEqz, if_not);
            lemma_open_sound(sink, block, after);
        },
        OpCode::Else => {
            match sink.blocks.last() {
                Block::If { end_label, if_not } => {
                    let closed = sink.blocks.last();
                    lemma_inv_pop_block(sink);
                    assert(closed.owns(end_label) && closed.owns(if_not));
                    let popped = sink.pop_block();
                    lemma_settled_blocks(sink, popped.blocks);
                    lemma_inv_emit_br(popped, BrKind::Br, end_label);
                    lemma_settled_emit_br(popped, BrKind::Br, end_label);
                    let jumped = popped.emit_br(BrKind::Br, end_label);
                    lemma_inv_resolve_label(jumped, if_not);
                    lemma_settled_resolve_label(jumped, if_not);
                    let marked = jumped.resolve_label(if_not);
                    let block = Block::Else { end_label };
                    lemma_inv_push_block(marked, block);
                    lemma_settled_blocks(marked, marked.blocks.push(block));
                    // every unresolved label: owned by an older block, or the end label
                    assert forall|id: int|
                        0 <= id < after.labels.len() && (#[trigger] after.labels[id]).pc
                            is None implies after.open_owner(id) by {
                        assert(marked.labels[id] == jumped.labels[id]);
                        assert(jumped.labels[id].pc == popped.labels[id].pc);
                        assert(sink.labels[id].pc is None);
                        assert(sink.open_owner(id));
                        let j = choose|j: int|
                            0 <= j < sink.blocks.len() && (#[trigger] sink.blocks[j]).owns(
                                id as u32,
                            );
                        if j == sink.blocks.len() - 1 {
                            assert(id == end_label);
                            assert(after.blocks[j] == block);
                            assert(after.blocks[j].owns(id as u32));
                        } else {
                            assert(after.blocks[j] == sink.blocks[j]);
                            assert(after.blocks[j].owns(id as u32));
                        }
                    }
                    assert forall|j: int| 0 <= j < after.blocks.len() implies match #[trigger] after.blocks[j] {
                        Block::Loop { head } => head < after.labels.len() && after.labels[head as int].pc
                            is Some,
                        _ => true,
                    } by {
                        if j < sink.blocks.len() - 1 {
                            assert(after.blocks[j] == sink.blocks[j]);
                            match sink.blocks[j] {
                                Block::Loop { head } => {
                                    assert(sink.labels[head as int].pc is Some);
                                    assert(jumped.labels[head as int].pc
                                        == popped.labels[head as int].pc);
                                    if head != if_not {
                                        assert(marked.labels[head as int]
                                            == jumped.labels[head as int]);
                                    }
                                },
                                _ => {},
                            }
                        }
                    }
                },
                _ => {},
            }
        },
        OpCode::End => {
            let closed = sink.blocks.last();
            lemma_inv_pop_block(sink);
            let popped = sink.pop_block();
            lemma_settled_blocks(sink, popped.blocks);
            let marked = match closed {
                Block::Block { end_label } => {
                    assert(closed.owns(end_label));
                    lemma_inv_resolve_label(popped, end_label);
                    lemma_settled_resolve_label(popped, end_label);
                    popped.resolve_label(end_label)
                },
                Block::Loop { head } => {
                    assert(sink.blocks[sink.blocks.len() - 1] == closed);
                    popped
                },
                Block::If { end_label, if_not } => {
                    assert(closed.owns(end_label) && closed.owns(if_not));
                    lemma_inv_resolve_label(popped, if_not);
                    lemma_settled_resolve_label(popped, if_not);
                    let half = popped.resolve_label(if_not);
                    lemma_inv_resolve_label(half, end_label);
                    lemma_settled_resolve_label(half, end_label);
                    half.resolve_label(end_label)
                },
                Block::Else { end_label } => {
                    assert(closed.owns(end_label));
                    lemma_inv_resolve_label(popped, end_label);
                    lemma_settled_resolve_label(popped, end_label);
                    popped.resolve_label(end_label)
                },
            };
            lemma_close_sound(sink, closed, marked);
            if marked.blocks.len() == 0 {
                lemma_inv_emit(marked, Instruction::Return);
                lemma_settled_emit(marked, Instruction::Return);
                assert(after.owned()) by {
                    assert forall|id: int|
                        0 <= id < after.labels.len() && (#[trigger] after.labels[id]).pc
                            is None implies after.open_owner(id) by {
                        assert(marked.open_owner(id));
                    }
                }
            }
        },
        OpCode::Br(depth) => {
            let dst = sink.br_destination(depth)->Some_0;
            lemma_destination_exists(sink, depth);
            lemma_branch_sound(sink, BrKind::Br, dst);
        },
        OpCode::BrIf(depth) => {
            let dst = sink.br_destination(depth)->Some_0;
            lemma_destination_exists(sink, depth);
            lemma_branch_sound(sink, BrKind::BrIfNez, dst);
        },
        OpCode::BrTable(table, default) => {
            let first = Instruction::BrTable { count: table@.len() as u32 };
            lemma_inv_emit(sink, first);
            lemma_settled_emit(sink, first);
            let started = sink.emit(first);
            assert(started.owned()) by {
                assert forall|id: int|
                    0 <= id < started.labels.len() && (#[trigger] started.labels[id]).pc
                        is None implies started.open_owner(id) by {
                    assert(sink.open_owner(id));
                }
            }
            lemma_table_sound(started, table@, 0);
            let listed = started.emit_table(table@, 0)->Some_0;
            let dst = listed.br_destination(default)->Some_0;
            lemma_destination_exists(listed, default);
            lemma_branch_sound(listed, BrKind::Br, dst);
        },
        other => {
            lemma_plain_no_target(other);
            let made = plain(other)->Some_0;
            lemma_inv_emit(sink, made);
            lemma_settled_emit(sink, made);
            assert(after.owned()) by {
                assert forall|id: int|
                    0 <= id < after.labels.len() && (#[trigger] after.labels[id]).pc
                        is None implies after.open_owner(id) by {
                    assert(sink.open_owner(id));
                }
            }
        },
    }
}

proof fn lemma_apply_all_sound(sink: SinkView, code: Seq<OpCode>, from: int)
    requires
        sink.inv(),
        sink.settled(),
        sink.owned(),
        0 <= from <= code.len(),
        sink.apply_all(code, from) is Some,
    ensures
        sink.apply_all(code, from)->Some_0.inv(),
        sink.apply_all(code, from)->Some_0.settled(),
        sink.apply_all(code, from)->Some_0.owned(),
    decreases code.len() - from,
{
    if from < code.len() {
        lemma_apply_sound(sink, code[from]);
        lemma_apply_all_sound(sink.apply(code[from])->Some_0, code, from + 1);
    }
}

/// In the flat code of a function every branch carries a target that is a
/// place in the code or the place directly behind it: no branch is left
/// with the placeholder.
pub proof fn branches_are_resolved(code: Seq<OpCode>)
    requires
        translate(code) is Some,
    ensures
        resolved(translate(code)->Some_0),
{
    let start = initial();
    assert(start.inv()) by {
        assert forall|j: int| 0 <= j < start.blocks.len() implies (#[trigger] start.blocks[j]).within(
            start.labels.len() as int,
        ) by {}
    }
    assert(start.owned()) by {
        assert forall|id: int|
            0 <= id < start.labels.len() && (#[trigger] start.labels[id]).pc
                is None implies start.open_owner(id) by {
            assert(start.blocks[0].owns(id as u32));
        }
    }
    lemma_apply_all_sound(start, code, 0);
    let done = start.apply_all(code, 0)->Some_0;
    let out = done.code;
    assert forall|at: int| 0 <= at < out.len() implies match target(#[trigger] out[at]) {
        Some(pc) => pc <= out.len(),
        None => true,
    } by {
        if target(out[at]) is Some && done.pending(at) {
            let (id, k) = choose|id: int, k: int| done.records(id, k, at);
            assert(done.labels[id].pc is None);
            assert(done.open_owner(id));
        }
    }
}

/// Translates the body of a function into flat code. Fails with a
/// validation error where the body is invalid or leaves a block open.
/// Every branch of the code that comes out has its target in the code or
/// directly behind it.
pub fn compile_function(func: &DecodedFunction) -> (res: Result<Vec<Instruction>, Error>)
    ensures
        match translate(func.code@) {
            Some(code) => res is Ok && res->Ok_0@ == code,
            None => res is Err && res->Err_0 is ValidationError,
        },
        res is Ok ==> resolved(res->Ok_0@),
{
    proof {
        if translate(func.code@) is Some {
            branches_are_resolved(func.code@);
        }
    }
    let code = &func.code;
    let mut sink = Sink::new(code.len());

    // Push function block.
    let end_label = sink.new_label();
    sink.push_block(Block::Block { end_label });
    assert(sink@.labels =~= initial().labels);
    assert(sink@.blocks =~= initial().blocks);
    assert(sink@.inv()) by {
        assert forall|j: int| 0 <= j < sink@.blocks.len() implies (#[trigger] sink@.blocks[j]).within(
            sink@.labels.len() as int,
        ) by {}
    }

    let mut at: usize = 0;
    while at < code.len()
        invariant
            at <= code@.len(),
            code@ == func.code@,
            sink@.inv(),
            sink@.apply_all(code@, at as int) == initial().apply_all(code@, 0),
        decreases code@.len() - at,
    {
        let op = &code[at];
        if !sink.has_room(op) {
            return Err(invalid("code too long"));
        }
        let ghost before = sink@;
        match op {
            OpCode::Nop => {},
            OpCode::Block(_) => {
                let end_label = sink.new_label();
                proof {
                    lemma_inv_new_label(before);
                    lemma_inv_push_block(sink@, Block::Block { end_label });
                }
                sink.push_block(Block::Block { end_label });
            },
            OpCode::Loop(_) => {
                let head = sink.new_label();
                proof {
                    lemma_inv_new_label(before);
                    lemma_inv_push_block(sink@, Block::Loop { head });
                }
                sink.push_block(Block::Loop { head });
                proof {
                    lemma_inv_resolve_label(sink@, head);
                }
                // resolve loop label here.
                sink.resolve_label(head);
            },
            OpCode::If(_) => {
                let if_not = sink.new_label();
                proof {
                    lemma_inv_new_label(before);
                    lemma_inv_new_label(sink@);
                }
                let end_label = sink.new_label();
                proof {
                    lemma_inv_push_block(sink@, Block::If { end_label, if_not });
                }
                sink.push_block(Block::If { end_label, if_not });
                proof {
                    lemma_inv_emit_br(sink@, BrKind::BrIfEqz, if_not);
                }
                sink.emit_br(BrKind::BrIfEqz, if_not);
            },
            OpCode::Else => {
                proof {
                    if before.blocks.len() > 0 {
                        lemma_inv_pop_block(before);
                    }
                }
                let block = sink.pop_block()?;
                match block {
                    Block::If { end_label, if_not } => {
                        assert(block.owns(end_label) && block.owns(if_not));
                        proof {
                            lemma_inv_emit_br(sink@, BrKind::Br, end_label);
                        }
                        // jump to the end of the 'else' block.
                        sink.emit_br(BrKind::Br, end_label);
                        proof {
                            lemma_inv_resolve_label(sink@, if_not);
                        }
                        // resolve label for start of 'else' block.
                        sink.resolve_label(if_not);
                        proof {
                            lemma_inv_push_block(sink@, Block::Else { end_label });
                        }
                        // start 'else' block
                        sink.push_block(Block::Else { end_label });
                    },
                    _ => {
                        return Err(invalid("invalid 'else' block, missing 'if'"));
                    },
                }
            },
            OpCode::End => {
                proof {
                    if before.blocks.len() > 0 {
                        lemma_inv_pop_block(before);
                    }
                }
                let block = sink.pop_block()?;
                match block {
                    Block::Block { end_label } => {
                        assert(block.owns(end_label));
                        proof {
                            lemma_inv_resolve_label(sink@, end_label);
                        }
                        sink.resolve_label(end_label);
                    },
                    Block::Loop { .. } => {},
                    Block::If { end_label, if_not } => {
                        assert(block.owns(end_label) && block.owns(if_not));
                        proof {
                            lemma_inv_resolve_label(sink@, if_not);
                        }
                        sink.resolve_label(if_not);
                        proof {
                            lemma_inv_resolve_label(sink@, end_label);
                        }
                        sink.resolve_label(end_label);
                    },
                    Block::Else { end_label } => {
                        assert(block.owns(end_label));
                        proof {
                            lemma_inv_resolve_label(sink@, end_label);
                        }
                        sink.resolve_label(end_label);
                    },
                }
                if sink.is_stack_empty() {
                    proof {
                        lemma_inv_emit(sink@, Instruction::Return);
                    }
                    sink.emit(Instruction::Return);
                }
            },
            OpCode::Br(block_depth) => {
                let dst = sink.br_destination(*block_depth)?;
                proof {
                    lemma_destination_exists(before, *block_depth);
                    lemma_inv_emit_br(before, BrKind::Br, dst);
                }
                sink.emit_br(BrKind::Br, dst);
            },
            OpCode::BrIf(block_depth) => {
                let dst = sink.br_destination(*block_depth)?;
                proof {
                    lemma_destination_exists(before, *block_depth);
                    lemma_inv_emit_br(before, BrKind::BrIfNez, dst);
                }
                sink.emit_br(BrKind::BrIfNez, dst);
            },
            OpCode::BrTable(table, default) => {
                proof {
                    lemma_inv_emit(before, Instruction::BrTable { count: table@.len() as u32 });
                }
                sink.emit(Instruction::BrTable { count: table.len() as u32 });
                sink.emit_table(table)?;
                let dst = sink.br_destination(*default)?;
                proof {
                    lemma_destination_exists(sink@, *default);
                    lemma_inv_emit_br(sink@, BrKind::Br, dst);
                }
                sink.emit_br(BrKind::Br, dst);
            },
            other => {
                match to_plain(other) {
                    Some(op) => {
                        proof {
                            lemma_inv_emit(before, op);
                        }
                        sink.emit(op);
                    },
                    None => {
                        return Err(invalid("instruction outside its block"));
                    },
                }
            },
        }
        at = at + 1;
    }
    if !sink.is_stack_empty() {
        return Err(invalid("missing end of block"));
    }
    Ok(sink.into_inner())
}

} // verus!
