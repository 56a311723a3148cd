//! Operators on 64-bit integers held in stack cells.
//!
//! An operand fills its cell, and so does a result.
use vstd::prelude::*;

use crate::error::{Trap, TrapKind};
use crate::stack::StackValue;

verus! {

/// The operand in a cell, read as a signed number.
pub open spec fn signed(c: StackValue) -> i64 {
    c.0 as i64
}

/// The operand in a cell, read as an unsigned number.
pub open spec fn unsigned(c: StackValue) -> u64 {
    c.0 as u64
}

/// The cell that holds a signed number.
pub open spec fn cell(v: i64) -> StackValue {
    StackValue(v as u64)
}

/// The cell that holds an unsigned number.
pub open spec fn cell_u(v: u64) -> StackValue {
    cell(v as i64)
}

/// The cell that holds a truth value: 1 or 0.
pub open spec fn cell_b(b: bool) -> StackValue {
    StackValue(if b { 1 } else { 0 })
}

/// The two's complement number of this width that is congruent to `x`.
pub open spec fn wrap(x: int) -> i64 {
    let m = x % 0x1_0000_0000_0000_0000;
    if m > i64::MAX {
        (m - 0x1_0000_0000_0000_0000) as i64
    } else {
        m as i64
    }
}

pub open spec fn abs(x: int) -> int {
    if x < 0 {
        -x
    } else {
        x
    }
}

/// Quotient rounded towards zero.
pub open spec fn trunc_div(a: int, b: int) -> int {
    if (a < 0) == (b < 0) {
        abs(a) / abs(b)
    } else {
        -(abs(a) / abs(b))
    }
}

/// Remainder of the division rounded towards zero: it has the sign of `a`.
pub open spec fn trunc_rem(a: int, b: int) -> int {
    if a < 0 {
        -(abs(a) % abs(b))
    } else {
        abs(a) % abs(b)
    }
}

/// Number of one bits.
pub open spec fn ones(x: u64) -> nat
    decreases x,
{
    if x == 0 {
        0
    } else {
        (x % 2) as nat + ones(x / 2)
    }
}

/// `x` rotated left by `k` bits.
pub open spec fn rotated_left(x: u64, k: u64) -> u64 {
    let s = k % 64;
    if s == 0 {
        x
    } else {
        (x << s) | (x >> ((64 - s) as u64))
    }
}

/// `x` rotated right by `k` bits.
pub open spec fn rotated_right(x: u64, k: u64) -> u64 {
    let s = k % 64;
    if s == 0 {
        x
    } else {
        (x >> s) | (x << ((64 - s) as u64))
    }
}

pub open spec fn add_spec(left: StackValue, right: StackValue) -> StackValue {
    cell(wrap(signed(left) + signed(right)))
}

pub open spec fn sub_spec(left: StackValue, right: StackValue) -> StackValue {
    cell(wrap(signed(left) - signed(right)))
}

pub open spec fn mul_spec(left: StackValue, right: StackValue) -> StackValue {
    cell(wrap(signed(left) * signed(right)))
}

pub open spec fn and_spec(left: StackValue, right: StackValue) -> StackValue {
    cell(signed(left) & signed(right))
}

pub open spec fn or_spec(left: StackValue, right: StackValue) -> StackValue {
    cell(signed(left) | signed(right))
}

pub open spec fn xor_spec(left: StackValue, right: StackValue) -> StackValue {
    cell(signed(left) ^ signed(right))
}

/// The shift count is taken modulo the width.
pub open spec fn shl_spec(left: StackValue, right: StackValue) -> StackValue {
    cell_u(unsigned(left) << (unsigned(right) % 64))
}

pub open spec fn shr_s_spec(left: StackValue, right: StackValue) -> StackValue {
    cell(signed(left) >> (unsigned(right) % 64))
}

pub open spec fn shr_u_spec(left: StackValue, right: StackValue) -> StackValue {
    cell_u(unsigned(left) >> (unsigned(right) % 64))
}

pub open spec fn rotl_spec(left: StackValue, right: StackValue) -> StackValue {
    cell_u(rotated_left(unsigned(left), unsigned(right)))
}

pub open spec fn rotr_spec(left: StackValue, right: StackValue) -> StackValue {
    cell_u(rotated_right(unsigned(left), unsigned(right)))
}

pub open spec fn div_s_spec(left: StackValue, right: StackValue) -> Trap<StackValue> {
    if signed(right) == 0 {
        Err(TrapKind::DivisionByZero)
    } else if signed(left) == i64::MIN && signed(right) == -1 {
        Err(TrapKind::InvalidConversionToInt)
    } else {
        Ok(cell(trunc_div(signed(left) as int, signed(right) as int) as i64))
    }
}

pub open spec fn rem_s_spec(left: StackValue, right: StackValue) -> Trap<StackValue> {
    if signed(right) == 0 {
        Err(TrapKind::DivisionByZero)
    } else if signed(left) == i64::MIN && signed(right) == -1 {
        Err(TrapKind::InvalidConversionToInt)
    } else {
        Ok(cell(trunc_rem(signed(left) as int, signed(right) as int) as i64))
    }
}

pub open spec fn div_u_spec(left: StackValue, right: StackValue) -> Trap<StackValue> {
    if unsigned(right) == 0 {
        Err(TrapKind::DivisionByZero)
    } else {
        Ok(cell_u(unsigned(left) / unsigned(right)))
    }
}

pub open spec fn rem_u_spec(left: StackValue, right: StackValue) -> Trap<StackValue> {
    if unsigned(right) == 0 {
        Err(TrapKind::DivisionByZero)
    } else {
        Ok(cell_u(unsigned(left) % unsigned(right)))
    }
}

pub open spec fn clz_spec(val: StackValue) -> StackValue {
    cell_u(vstd::std_specs::bits::u64_leading_zeros(unsigned(val)) as u64)
}

pub open spec fn ctz_spec(val: StackValue) -> StackValue {
    cell_u(vstd::std_specs::bits::u64_trailing_zeros(unsigned(val)) as u64)
}

pub open spec fn popcnt_spec(val: StackValue) -> StackValue {
    cell_u(ones(unsigned(val)) as u64)
}

pub open spec fn eqz_spec(val: StackValue) -> StackValue {
    cell_b(signed(val) == 0)
}

pub open spec fn eq_spec(left: StackValue, right: StackValue) -> StackValue {
    cell_b(signed(left) == signed(right))
}

pub open spec fn ne_spec(left: StackValue, right: StackValue) -> StackValue {
    cell_b(signed(left) != signed(right))
}

pub open spec fn lt_s_spec(left: StackValue, right: StackValue) -> StackValue {
    cell_b(signed(left) < signed(right))
}

pub open spec fn lt_u_spec(left: StackValue, right: StackValue) -> StackValue {
    cell_b(unsigned(left) < unsigned(right))
}

pub open spec fn gt_s_spec(left: StackValue, right: StackValue) -> StackValue {
    cell_b(signed(left) > signed(right))
}

pub open spec fn gt_u_spec(left: StackValue, right: StackValue) -> StackValue {
    cell_b(unsigned(left) > unsigned(right))
}

pub open spec fn le_s_spec(left: StackValue, right: StackValue) -> StackValue {
    cell_b(signed(left) <= signed(right))
}

pub open spec fn le_u_spec(left: StackValue, right: StackValue) -> StackValue {
    cell_b(unsigned(left) <= unsigned(right))
}

pub open spec fn ge_s_spec(left: StackValue, right: StackValue) -> StackValue {
    cell_b(signed(left) >= signed(right))
}

pub open spec fn ge_u_spec(left: StackValue, right: StackValue) -> StackValue {
    cell_b(unsigned(left) >= unsigned(right))
}

pub fn to_signed(c: StackValue) -> (v: i64)
    ensures
        v == signed(c),
{
    #[verifier::truncate]
    (c.0 as i64)
}

pub fn to_unsigned(c: StackValue) -> (v: u64)
    ensures
        v == unsigned(c),
{
    c.0
}

pub fn from_signed(v: i64) -> (c: StackValue)
    ensures
        c == cell(v),
{
    StackValue(
        #[verifier::truncate]
        (v as u64),
    )
}

pub fn from_unsigned(v: u64) -> (c: StackValue)
    ensures
        c == cell_u(v),
{
    from_signed(
        #[verifier::truncate]
        (v as i64),
    )
}

pub fn from_bool(b: bool) -> (c: StackValue)
    ensures
        c == cell_b(b),
{
    if b {
        StackValue(1)
    } else {
        StackValue(0)
    }
}

pub fn add(left: StackValue, right: StackValue) -> (res: StackValue)
    ensures
        res == add_spec(left, right),
{
    from_signed(to_signed(left).wrapping_add(to_signed(right)))
}

pub fn sub(left: StackValue, right: StackValue) -> (res: StackValue)
    ensures
        res == sub_spec(left, right),
{
    from_signed(to_signed(left).wrapping_sub(to_signed(right)))
}

pub fn mul(left: StackValue, right: StackValue) -> (res: StackValue)
    ensures
        res == mul_spec(left, right),
{
    from_signed(to_signed(left).wrapping_mul(to_signed(right)))
}

pub fn and(left: StackValue, right: StackValue) -> (res: StackValue)
    ensures
        res == and_spec(left, right),
{
    from_signed(to_signed(left) & to_signed(right))
}

pub fn or(left: StackValue, right: StackValue) -> (res: StackValue)
    ensures
        res == or_spec(left, right),
{
    from_signed(to_signed(left) | to_signed(right))
}

pub fn xor(left: StackValue, right: StackValue) -> (res: StackValue)
    ensures
        res == xor_spec(left, right),
{
    from_signed(to_signed(left) ^ to_signed(right))
}

pub fn shl(left: StackValue, right: StackValue) -> (res: StackValue)
    ensures
        res == shl_spec(left, right),
{
    from_unsigned(to_unsigned(left).wrapping_shl((to_unsigned(right) % 64) as u32))
}

pub fn shr_s(left: StackValue, right: StackValue) -> (res: StackValue)
    ensures
        res == shr_s_spec(left, right),
{
    from_signed(to_signed(left).wrapping_shr((to_unsigned(right) % 64) as u32))
}

pub fn shr_u(left: StackValue, right: StackValue) -> (res: StackValue)
    ensures
        res == shr_u_spec(left, right),
{
    from_unsigned(to_unsigned(left).wrapping_shr((to_unsigned(right) % 64) as u32))
}

pub fn rotl(left: StackValue, right: StackValue) -> (res: StackValue)
    ensures
        res == rotl_spec(left, right),
{
    let x = to_unsigned(left);
    let s = to_unsigned(right) % 64;
    if s == 0 {
        from_unsigned(x)
    } else {
        from_unsigned((x << s) | (x >> (64 - s)))
    }
}

pub fn rotr(left: StackValue, right: StackValue) -> (res: StackValue)
    ensures
        res == rotr_spec(left, right),
{
    let x = to_unsigned(left);
    let s = to_unsigned(right) % 64;
    if s == 0 {
        from_unsigned(x)
    } else {
        from_unsigned((x >> s) | (x << (64 - s)))
    }
}

proof fn lemma_quotient_bound(x: int, d: int)
    by (nonlinear_arith)
    requires
        x >= 0,
        d > 0,
    ensures
        0 <= x / d <= x,
        d == 1 ==> x / d == x,
        d >= 2 ==> 2 * (x / d) <= x,
        x == 0 ==> x / d == 0,
        0 <= x % d < d,
        x % d <= x,
{
}

pub fn div_s(left: StackValue, right: StackValue) -> (res: Trap<StackValue>)
    ensures
        res == div_s_spec(left, right),
{
    let a = to_signed(left);
    let b = to_signed(right);
    proof {
        if b != 0 {
            lemma_quotient_bound(abs(a as int), abs(b as int));
        }
    }
    match a.checked_div(b) {
        Some(q) => Ok(from_signed(q)),
        None => if b == 0 {
            Err(TrapKind::DivisionByZero)
        } else {
            Err(TrapKind::InvalidConversionToInt)
        },
    }
}

pub fn rem_s(left: StackValue, right: StackValue) -> (res: Trap<StackValue>)
    ensures
        res == rem_s_spec(left, right),
{
    let a = to_signed(left);
    let b = to_signed(right);
    proof {
        if b != 0 {
            lemma_quotient_bound(abs(a as int), abs(b as int));
        }
    }
    match a.checked_rem(b) {
        Some(r) => Ok(from_signed(r)),
        None => if b == 0 {
            Err(TrapKind::DivisionByZero)
        } else {
            Err(TrapKind::InvalidConversionToInt)
        },
    }
}

pub fn div_u(left: StackValue, right: StackValue) -> (res: Trap<StackValue>)
    ensures
        res == div_u_spec(left, right),
{
    let a = to_unsigned(left);
    let b = to_unsigned(right);
    if b == 0 {
        Err(TrapKind::DivisionByZero)
    } else {
        Ok(from_unsigned(a / b))
    }
}

pub fn rem_u(left: StackValue, right: StackValue) -> (res: Trap<StackValue>)
    ensures
        res == rem_u_spec(left, right),
{
    let a = to_unsigned(left);
    let b = to_unsigned(right);
    if b == 0 {
        Err(TrapKind::DivisionByZero)
    } else {
        Ok(from_unsigned(a % b))
    }
}

pub fn clz(val: StackValue) -> (res: StackValue)
    ensures
        res == clz_spec(val),
{
    from_unsigned(to_unsigned(val).leading_zeros() as u64)
}

pub fn ctz(val: StackValue) -> (res: StackValue)
    ensures
        res == ctz_spec(val),
{
    from_unsigned(to_unsigned(val).trailing_zeros() as u64)
}

proof fn lemma_ones_step(x: u64)
    ensures
        x != 0 ==> ones(x) == (x & 1) + ones(x >> 1),
        ones(x) <= 64,
{
    vstd::arithmetic::power2::lemma2_to64();
    lemma_ones_bound(x, 64);
    assert(x & 1 == x % 2) by (bit_vector);
    assert(x >> 1 == x / 2) by (bit_vector);
}

proof fn lemma_ones_bound(x: u64, bits: nat)
    requires
        x < vstd::arithmetic::power2::pow2(bits),
    ensures
        ones(x) <= bits,
    decreases x,
{
    if x != 0 {
        vstd::arithmetic::power2::lemma2_to64();
        if bits == 0 {
            assert(vstd::arithmetic::power2::pow2(0) == 1);
        } else {
            vstd::arithmetic::power2::lemma_pow2_unfold(bits);
            lemma_ones_bound(x / 2, (bits - 1) as nat);
        }
    }
}

pub fn popcnt(val: StackValue) -> (res: StackValue)
    ensures
        res == popcnt_spec(val),
{
    let x = to_unsigned(val);
    let mut rest: u64 = x;
    let mut count: u64 = 0;
    proof {
        lemma_ones_step(x);
    }
    while rest != 0
        invariant
            count + ones(rest) == ones(x),
            ones(x) <= 64,
        decreases rest,
    {
        proof {
            lemma_ones_step(rest);
            assert(rest >> 1 < rest) by (bit_vector)
                requires
                    rest != 0,
            ;
            assert(rest & 1 <= 1) by (bit_vector);
        }
        count = count + (rest & 1);
        rest = rest >> 1;
    }
    from_unsigned(count)
}

pub fn eqz(val: StackValue) -> (res: StackValue)
    ensures
        res == eqz_spec(val),
{
    from_bool(to_signed(val) == 0)
}

pub fn eq(left: StackValue, right: StackValue) -> (res: StackValue)
    ensures
        res == eq_spec(left, right),
{
    from_bool(to_signed(left) == to_signed(right))
}

pub fn ne(left: StackValue, right: StackValue) -> (res: StackValue)
    ensures
        res == ne_spec(left, right),
{
    from_bool(to_signed(left) != to_signed(right))
}

pub fn lt_s(left: StackValue, right: StackValue) -> (res: StackValue)
    ensures
        res == lt_s_spec(left, right),
{
    from_bool(to_signed(left) < to_signed(right))
}

pub fn lt_u(left: StackValue, right: StackValue) -> (res: StackValue)
    ensures
        res == lt_u_spec(left, right),
{
    from_bool(to_unsigned(left) < to_unsigned(right))
}

pub fn gt_s(left: StackValue, right: StackValue) -> (res: StackValue)
    ensures
        res == gt_s_spec(left, right),
{
    from_bool(to_signed(left) > to_signed(right))
}

pub fn gt_u(left: StackValue, right: StackValue) -> (res: StackValue)
    ensures
        res == gt_u_spec(left, right),
{
    from_bool(to_unsigned(left) > to_unsigned(right))
}

pub fn le_s(left: StackValue, right: StackValue) -> (res: StackValue)
    ensures
        res == le_s_spec(left, right),
{
    from_bool(to_signed(left) <= to_signed(right))
}

pub fn le_u(left: StackValue, right: StackValue) -> (res: StackValue)
    ensures
        res == le_u_spec(left, right),
{
    from_bool(to_unsigned(left) <= to_unsigned(right))
}

pub fn ge_s(left: StackValue, right: StackValue) -> (res: StackValue)
    ensures
        res == ge_s_spec(left, right),
{
    from_bool(to_signed(left) >= to_signed(right))
}

pub fn ge_u(left: StackValue, right: StackValue) -> (res: StackValue)
    ensures
        res == ge_u_spec(left, right),
{
    from_bool(to_unsigned(left) >= to_unsigned(right))
}

/// A number written to a cell is read back unchanged, at either signedness.
pub proof fn lemma_cell_round_trip(x: i64, y: u64)
    ensures
        signed(cell(x)) == x,
        unsigned(cell_u(y)) == y,
{
    assert(((x as u64) as i64) == x) by (bit_vector);
    assert((((y as i64) as u64) as u64) == y) by (bit_vector);
}

/// For every number `x` of this width: `x + (0 - x) = 0`, `x - x = 0`,
/// `x * 1 = x`, `x & x = x`, `x | 0 = x` and `x ^ x = 0`.
pub proof fn arithmetic_identities(x: i64)
    ensures
        add_spec(cell(x), sub_spec(cell(0), cell(x))) == cell(0),
        sub_spec(cell(x), cell(x)) == cell(0),
        mul_spec(cell(x), cell(1)) == cell(x),
        and_spec(cell(x), cell(x)) == cell(x),
        or_spec(cell(x), cell(0)) == cell(x),
        xor_spec(cell(x), cell(x)) == cell(0),
{
    lemma_cell_round_trip(x, 0);
    lemma_cell_round_trip(0, 0);
    lemma_cell_round_trip(1, 0);
    lemma_cell_round_trip(wrap(0 - x), 0);
    assert(x & x == x) by (bit_vector);
    assert(x | 0i64 == x) by (bit_vector);
    assert(x ^ x == 0i64) by (bit_vector);
}

/// Addition wraps around in two's complement: the largest number plus one
/// is the smallest.
pub proof fn addition_wraps_around()
    ensures
        add_spec(cell(i64::MAX), cell(1)) == cell(i64::MIN),
{
    lemma_cell_round_trip(i64::MAX, 0);
    lemma_cell_round_trip(1, 0);
}

/// Only the shift count modulo the width matters.
pub proof fn shift_count_is_masked(x: i64, k: u64)
    ensures
        shl_spec(cell(x), cell_u(k)) == shl_spec(cell(x), cell_u(k % 64)),
        shr_s_spec(cell(x), cell_u(k)) == shr_s_spec(cell(x), cell_u(k % 64)),
        shr_u_spec(cell(x), cell_u(k)) == shr_u_spec(cell(x), cell_u(k % 64)),
{
    lemma_cell_round_trip(x, k);
    lemma_cell_round_trip(x, k % 64);
}

/// Dividing the smallest number by minus one traps, for the quotient and for
/// the remainder, and every division by zero traps.
pub proof fn division_traps(x: StackValue)
    ensures
        div_s_spec(cell(i64::MIN), cell(-1i64)) == Trap::<StackValue>::Err(
            TrapKind::InvalidConversionToInt,
        ),
        rem_s_spec(cell(i64::MIN), cell(-1i64)) == Trap::<StackValue>::Err(
            TrapKind::InvalidConversionToInt,
        ),
        div_s_spec(x, cell(0)) == Trap::<StackValue>::Err(TrapKind::DivisionByZero),
        div_u_spec(x, cell(0)) == Trap::<StackValue>::Err(TrapKind::DivisionByZero),
        rem_s_spec(x, cell(0)) == Trap::<StackValue>::Err(TrapKind::DivisionByZero),
        rem_u_spec(x, cell(0)) == Trap::<StackValue>::Err(TrapKind::DivisionByZero),
{
    lemma_cell_round_trip(i64::MIN, 0);
    lemma_cell_round_trip(-1i64, 0);
    lemma_cell_round_trip(0, 0);
}

} // verus!
