//! The operator kernels, selected by a plain tag so that a compiled
//! operation is data.
use vstd::prelude::*;

use crate::error::Trap;
use crate::stack::StackValue;

verus! {

/// An operator with one operand.
#[derive(Debug, Clone, Copy, PartialEq, Eq, Structural)]
pub enum UnOp {
    I32Clz,
    I32Ctz,
    I32Popcnt,
    I32Eqz,
    I64Clz,
    I64Ctz,
    I64Popcnt,
    I64Eqz,
}

/// An operator with two operands: the left one is the deeper one on the
/// operand stack of the source program.
#[derive(Debug, Clone, Copy, PartialEq, Eq, Structural)]
pub enum BinOp {
    I32Add,
    I32Sub,
    I32Mul,
    I32DivS,
    I32DivU,
    I32RemS,
    I32RemU,
    I32And,
    I32Or,
    I32Xor,
    I32Shl,
    I32ShrS,
    I32ShrU,
    I32Rotl,
    I32Rotr,
    I32Eq,
    I32Ne,
    I32LtS,
    I32LtU,
    I32GtS,
    I32GtU,
    I32LeS,
    I32LeU,
    I32GeS,
    I32GeU,
    I64Add,
    I64Sub,
    I64Mul,
    I64DivS,
    I64DivU,
    I64RemS,
    I64RemU,
    I64And,
    I64Or,
    I64Xor,
    I64Shl,
    I64ShrS,
    I64ShrU,
    I64Rotl,
    I64Rotr,
    I64Eq,
    I64Ne,
    I64LtS,
    I64LtU,
    I64GtS,
    I64GtU,
    I64LeS,
    I64LeU,
    I64GeS,
    I64GeU,
}

/// What a one-operand operator makes of a cell.
pub open spec fn unary_spec(op: UnOp, val: StackValue) -> StackValue {
    match op {
        UnOp::I32Clz => crate::i32_ops::clz_spec(val),
        UnOp::I32Ctz => crate::i32_ops::ctz_spec(val),
        UnOp::I32Popcnt => crate::i32_ops::popcnt_spec(val),
        UnOp::I32Eqz => crate::i32_ops::eqz_spec(val),
        UnOp::I64Clz => crate::i64_ops::clz_spec(val),
        UnOp::I64Ctz => crate::i64_ops::ctz_spec(val),
        UnOp::I64Popcnt => crate::i64_ops::popcnt_spec(val),
        UnOp::I64Eqz => crate::i64_ops::eqz_spec(val),
    }
}

/// What a two-operand operator makes of two cells, or the trap it raises.
pub open spec fn binary_spec(op: BinOp, left: StackValue, right: StackValue) -> Trap<StackValue> {
    match op {
        BinOp::I32Add => Ok(crate::i32_ops::add_spec(left, right)),
        BinOp::I32Sub => Ok(crate::i32_ops::sub_spec(left, right)),
        BinOp::I32Mul => Ok(crate::i32_ops::mul_spec(left, right)),
        BinOp::I32DivS => crate::i32_ops::div_s_spec(left, right),
        BinOp::I32DivU => crate::i32_ops::div_u_spec(left, right),
        BinOp::I32RemS => crate::i32_ops::rem_s_spec(left, right),
        BinOp::I32RemU => crate::i32_ops::rem_u_spec(left, right),
        BinOp::I32And => Ok(crate::i32_ops::and_spec(left, right)),
        BinOp::I32Or => Ok(crate::i32_ops::or_spec(left, right)),
        BinOp::I32Xor => Ok(crate::i32_ops::xor_spec(left, right)),
        BinOp::I32Shl => Ok(crate::i32_ops::shl_spec(left, right)),
        BinOp::I32ShrS => Ok(crate::i32_ops::shr_s_spec(left, right)),
        BinOp::I32ShrU => Ok(crate::i32_ops::shr_u_spec(left, right)),
        BinOp::I32Rotl => Ok(crate::i32_ops::rotl_spec(left, right)),
        BinOp::I32Rotr => Ok(crate::i32_ops::rotr_spec(left, right)),
        BinOp::I32Eq => Ok(crate::i32_ops::eq_spec(left, right)),
        BinOp::I32Ne => Ok(crate::i32_ops::ne_spec(left, right)),
        BinOp::I32LtS => Ok(crate::i32_ops::lt_s_spec(left, right)),
        BinOp::I32LtU => Ok(crate::i32_ops::lt_u_spec(left, right)),
        BinOp::I32GtS => Ok(crate::i32_ops::gt_s_spec(left, right)),
        BinOp::I32GtU => Ok(crate::i32_ops::gt_u_spec(left, right)),
        BinOp::I32LeS => Ok(crate::i32_ops::le_s_spec(left, right)),
        BinOp::I32LeU => Ok(crate::i32_ops::le_u_spec(left, right)),
        BinOp::I32GeS => Ok(crate::i32_ops::ge_s_spec(left, right)),
        BinOp::I32GeU => Ok(crate::i32_ops::ge_u_spec(left, right)),
        BinOp::I64Add => Ok(crate::i64_ops::add_spec(left, right)),
        BinOp::I64Sub => Ok(crate::i64_ops::sub_spec(left, right)),
        BinOp::I64Mul => Ok(crate::i64_ops::mul_spec(left, right)),
        BinOp::I64DivS => crate::i64_ops::div_s_spec(left, right),
        BinOp::I64DivU => crate::i64_ops::div_u_spec(left, right),
        BinOp::I64RemS => crate::i64_ops::rem_s_spec(left, right),
        BinOp::I64RemU => crate::i64_ops::rem_u_spec(left, right),
        BinOp::I64And => Ok(crate::i64_ops::and_spec(left, right)),
        BinOp::I64Or => Ok(crate::i64_ops::or_spec(left, right)),
        BinOp::I64Xor => Ok(crate::i64_ops::xor_spec(left, right)),
        BinOp::I64Shl => Ok(crate::i64_ops::shl_spec(left, right)),
        BinOp::I64ShrS => Ok(crate::i64_ops::shr_s_spec(left, right)),
        BinOp::I64ShrU => Ok(crate::i64_ops::shr_u_spec(left, right)),
        BinOp::I64Rotl => Ok(crate::i64_ops::rotl_spec(left, right)),
        BinOp::I64Rotr => Ok(crate::i64_ops::rotr_spec(left, right)),
        BinOp::I64Eq => Ok(crate::i64_ops::eq_spec(left, right)),
        BinOp::I64Ne => Ok(crate::i64_ops::ne_spec(left, right)),
        BinOp::I64LtS => Ok(crate::i64_ops::lt_s_spec(left, right)),
        BinOp::I64LtU => Ok(crate::i64_ops::lt_u_spec(left, right)),
        BinOp::I64GtS => Ok(crate::i64_ops::gt_s_spec(left, right)),
        BinOp::I64GtU => Ok(crate::i64_ops::gt_u_spec(left, right)),
        BinOp::I64LeS => Ok(crate::i64_ops::le_s_spec(left, right)),
        BinOp::I64LeU => Ok(crate::i64_ops::le_u_spec(left, right)),
        BinOp::I64GeS => Ok(crate::i64_ops::ge_s_spec(left, right)),
        BinOp::I64GeU => Ok(crate::i64_ops::ge_u_spec(left, right)),
    }
}

pub fn apply_unary(op: UnOp, val: StackValue) -> (res: StackValue)
    ensures
        res == unary_spec(op, val),
{
    match op {
        UnOp::I32Clz => crate::i32_ops::clz(val),
        UnOp::I32Ctz => crate::i32_ops::ctz(val),
        UnOp::I32Popcnt => crate::i32_ops::popcnt(val),
        UnOp::I32Eqz => crate::i32_ops::eqz(val),
        UnOp::I64Clz => crate::i64_ops::clz(val),
        UnOp::I64Ctz => crate::i64_ops::ctz(val),
        UnOp::I64Popcnt => crate::i64_ops::popcnt(val),
        UnOp::I64Eqz => crate::i64_ops::eqz(val),
    }
}

pub fn apply_binary(op: BinOp, left: StackValue, right: StackValue) -> (res: Trap<StackValue>)
    ensures
        res == binary_spec(op, left, right),
{
    match op {
        BinOp::I32Add => Ok(crate::i32_ops::add(left, right)),
        BinOp::I32Sub => Ok(crate::i32_ops::sub(left, right)),
        BinOp::I32Mul => Ok(crate::i32_ops::mul(left, right)),
        BinOp::I32DivS => crate::i32_ops::div_s(left, right),
        BinOp::I32DivU => crate::i32_ops::div_u(left, right),
        BinOp::I32RemS => crate::i32_ops::rem_s(left, right),
        BinOp::I32RemU => crate::i32_ops::rem_u(left, right),
        BinOp::I32And => Ok(crate::i32_ops::and(left, right)),
        BinOp::I32Or => Ok(crate::i32_ops::or(left, right)),
        BinOp::I32Xor => Ok(crate::i32_ops::xor(left, right)),
        BinOp::I32Shl => Ok(crate::i32_ops::shl(left, right)),
        BinOp::I32ShrS => Ok(crate::i32_ops::shr_s(left, right)),
        BinOp::I32ShrU => Ok(crate::i32_ops::shr_u(left, right)),
        BinOp::I32Rotl => Ok(crate::i32_ops::rotl(left, right)),
        BinOp::I32Rotr => Ok(crate::i32_ops::rotr(left, right)),
        BinOp::I32Eq => Ok(crate::i32_ops::eq(left, right)),
        BinOp::I32Ne => Ok(crate::i32_ops::ne(left, right)),
        BinOp::I32LtS => Ok(crate::i32_ops::lt_s(left, right)),
        BinOp::I32LtU => Ok(crate::i32_ops::lt_u(left, right)),
        BinOp::I32GtS => Ok(crate::i32_ops::gt_s(left, right)),
        BinOp::I32GtU => Ok(crate::i32_ops::gt_u(left, right)),
        BinOp::I32LeS => Ok(crate::i32_ops::le_s(left, right)),
        BinOp::I32LeU => Ok(crate::i32_ops::le_u(left, right)),
        BinOp::I32GeS => Ok(crate::i32_ops::ge_s(left, right)),
        BinOp::I32GeU => Ok(crate::i32_ops::ge_u(left, right)),
        BinOp::I64Add => Ok(crate::i64_ops::add(left, right)),
        BinOp::I64Sub => Ok(crate::i64_ops::sub(left, right)),
        BinOp::I64Mul => Ok(crate::i64_ops::mul(left, right)),
        BinOp::I64DivS => crate::i64_ops::div_s(left, right),
        BinOp::I64DivU => crate::i64_ops::div_u(left, right),
        BinOp::I64RemS => crate::i64_ops::rem_s(left, right),
        BinOp::I64RemU => crate::i64_ops::rem_u(left, right),
        BinOp::I64And => Ok(crate::i64_ops::and(left, right)),
        BinOp::I64Or => Ok(crate::i64_ops::or(left, right)),
        BinOp::I64Xor => Ok(crate::i64_ops::xor(left, right)),
        BinOp::I64Shl => Ok(crate::i64_ops::shl(left, right)),
        BinOp::I64ShrS => Ok(crate::i64_ops::shr_s(left, right)),
        BinOp::I64ShrU => Ok(crate::i64_ops::shr_u(left, right)),
        BinOp::I64Rotl => Ok(crate::i64_ops::rotl(left, right)),
        BinOp::I64Rotr => Ok(crate::i64_ops::rotr(left, right)),
        BinOp::I64Eq => Ok(crate::i64_ops::eq(left, right)),
        BinOp::I64Ne => Ok(crate::i64_ops::ne(left, right)),
        BinOp::I64LtS => Ok(crate::i64_ops::lt_s(left, right)),
        BinOp::I64LtU => Ok(crate::i64_ops::lt_u(left, right)),
        BinOp::I64GtS => Ok(crate::i64_ops::gt_s(left, right)),
        BinOp::I64GtU => Ok(crate::i64_ops::gt_u(left, right)),
        BinOp::I64LeS => Ok(crate::i64_ops::le_s(left, right)),
        BinOp::I64LeU => Ok(crate::i64_ops::le_u(left, right)),
        BinOp::I64GeS => Ok(crate::i64_ops::ge_s(left, right)),
        BinOp::I64GeU => Ok(crate::i64_ops::ge_u(left, right)),
    }
}

} // verus!
