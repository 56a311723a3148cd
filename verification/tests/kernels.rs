use s1vm::kernel::{apply_binary, apply_unary, BinOp, UnOp};
use s1vm::{i32_ops, i64_ops, StackValue, TrapKind};

fn c32(v: i32) -> StackValue {
    StackValue(v as u64)
}

fn c64(v: i64) -> StackValue {
    StackValue(v as u64)
}

const SAMPLES_32: [i32; 9] = [0, 1, -1, 2, 7, -8, 0x1234_5678, i32::MAX, i32::MIN];

const SAMPLES_64: [i64; 9] = [0, 1, -1, 2, 7, -8, 0x1234_5678_9abc_def0, i64::MAX, i64::MIN];

#[test]
fn arithmetic_identities_32() {
    for x in SAMPLES_32 {
        let neg = i32_ops::sub(c32(0), c32(x));
        assert_eq!(i32_ops::add(c32(x), neg), c32(0));
        assert_eq!(i32_ops::sub(c32(x), c32(x)), c32(0));
        assert_eq!(i32_ops::mul(c32(x), c32(1)), c32(x));
        assert_eq!(i32_ops::and(c32(x), c32(x)), c32(x));
        assert_eq!(i32_ops::or(c32(x), c32(0)), c32(x));
        assert_eq!(i32_ops::xor(c32(x), c32(x)), c32(0));
    }
}

#[test]
fn arithmetic_identities_64() {
    for x in SAMPLES_64 {
        let neg = i64_ops::sub(c64(0), c64(x));
        assert_eq!(i64_ops::add(c64(x), neg), c64(0));
        assert_eq!(i64_ops::sub(c64(x), c64(x)), c64(0));
        assert_eq!(i64_ops::mul(c64(x), c64(1)), c64(x));
        assert_eq!(i64_ops::and(c64(x), c64(x)), c64(x));
        assert_eq!(i64_ops::or(c64(x), c64(0)), c64(x));
        assert_eq!(i64_ops::xor(c64(x), c64(x)), c64(0));
    }
}

#[test]
fn addition_wraps_around() {
    assert_eq!(i32_ops::add(c32(i32::MAX), c32(1)), c32(i32::MIN));
    assert_eq!(i64_ops::add(c64(i64::MAX), c64(1)), c64(i64::MIN));
    assert_eq!(i32_ops::sub(c32(i32::MIN), c32(1)), c32(i32::MAX));
    assert_eq!(i64_ops::sub(c64(i64::MIN), c64(1)), c64(i64::MAX));
    assert_eq!(i32_ops::mul(c32(0x4000_0000), c32(4)), c32(0));
    assert_eq!(i64_ops::mul(c64(i64::MAX), c64(2)), c64(-2));
}

#[test]
fn only_the_low_bits_of_a_32_bit_operand_count() {
    // the operand is read from the low half of the cell
    assert_eq!(i32_ops::add(StackValue(0xdead_beef_0000_0001), c32(1)), c32(2));
    assert_eq!(i32_ops::eqz(StackValue(0x1_0000_0000)), StackValue(1));
    assert_eq!(i64_ops::eqz(StackValue(0x1_0000_0000)), StackValue(0));
}

#[test]
fn shift_count_is_masked() {
    for k in [0u32, 1, 5, 31, 32, 33, 63, 64, 65, 1000, u32::MAX] {
        for x in SAMPLES_32 {
            let full = i32_ops::shl(c32(x), c32(k as i32));
            assert_eq!(full, i32_ops::shl(c32(x), c32((k % 32) as i32)));
            assert_eq!(full, c32(x.wrapping_shl(k)));
            assert_eq!(i32_ops::shr_s(c32(x), c32(k as i32)), c32(x >> (k % 32)));
            assert_eq!(i32_ops::shr_u(c32(x), c32(k as i32)), c32(((x as u32) >> (k % 32)) as i32));
        }
        for x in SAMPLES_64 {
            let full = i64_ops::shl(c64(x), c64(k as i64));
            assert_eq!(full, i64_ops::shl(c64(x), c64((k % 64) as i64)));
            assert_eq!(full, c64(x.wrapping_shl(k)));
            assert_eq!(i64_ops::shr_s(c64(x), c64(k as i64)), c64(x >> (k % 64)));
            assert_eq!(i64_ops::shr_u(c64(x), c64(k as i64)), c64(((x as u64) >> (k % 64)) as i64));
        }
    }
}

#[test]
fn wide_shifts_use_six_bits() {
    assert_eq!(i64_ops::shl(c64(1), c64(32)), c64(1 << 32));
    assert_eq!(i64_ops::shl(c64(1), c64(63)), c64(i64::MIN));
    assert_eq!(i64_ops::shr_u(c64(i64::MIN), c64(63)), c64(1));
    assert_eq!(i64_ops::shr_s(c64(i64::MIN), c64(63)), c64(-1));
    assert_eq!(i32_ops::shl(c32(1), c32(31)), c32(i32::MIN));
    assert_eq!(i32_ops::shr_s(c32(-16), c32(2)), c32(-4));
    assert_eq!(i32_ops::shr_u(c32(-16), c32(2)), c32(0x3fff_fffc));
}

#[test]
fn rotations() {
    assert_eq!(i32_ops::rotl(c32(0x8000_0001u32 as i32), c32(1)), c32(3));
    assert_eq!(i32_ops::rotr(c32(3), c32(1)), c32(0x8000_0001u32 as i32));
    assert_eq!(i32_ops::rotl(c32(0x1234_5678), c32(32)), c32(0x1234_5678));
    assert_eq!(i32_ops::rotl(c32(0x1234_5678), c32(36)), c32(0x2345_6781));
    assert_eq!(i64_ops::rotl(c64(i64::MIN + 1), c64(1)), c64(3));
    assert_eq!(i64_ops::rotr(c64(3), c64(1)), c64(i64::MIN + 1));
    assert_eq!(i64_ops::rotr(c64(0x0123_4567_89ab_cdef), c64(64 + 8)), c64(0xef01_2345_6789_abcdu64 as i64));
    for k in [0u32, 1, 13, 31, 32, 40, 63, 64, 100] {
        for x in SAMPLES_32 {
            assert_eq!(i32_ops::rotl(c32(x), c32(k as i32)), c32(x.rotate_left(k)));
            assert_eq!(i32_ops::rotr(c32(x), c32(k as i32)), c32(x.rotate_right(k)));
        }
        for x in SAMPLES_64 {
            assert_eq!(i64_ops::rotl(c64(x), c64(k as i64)), c64(x.rotate_left(k)));
            assert_eq!(i64_ops::rotr(c64(x), c64(k as i64)), c64(x.rotate_right(k)));
        }
    }
}

#[test]
fn division_traps() {
    assert_eq!(i32_ops::div_s(c32(i32::MIN), c32(-1)), Err(TrapKind::InvalidConversionToInt));
    assert_eq!(i64_ops::div_s(c64(i64::MIN), c64(-1)), Err(TrapKind::InvalidConversionToInt));
    assert_eq!(i32_ops::rem_s(c32(i32::MIN), c32(-1)), Err(TrapKind::InvalidConversionToInt));
    assert_eq!(i64_ops::rem_s(c64(i64::MIN), c64(-1)), Err(TrapKind::InvalidConversionToInt));
    for x in SAMPLES_32 {
        assert_eq!(i32_ops::div_s(c32(x), c32(0)), Err(TrapKind::DivisionByZero));
        assert_eq!(i32_ops::div_u(c32(x), c32(0)), Err(TrapKind::DivisionByZero));
        assert_eq!(i32_ops::rem_s(c32(x), c32(0)), Err(TrapKind::DivisionByZero));
        assert_eq!(i32_ops::rem_u(c32(x), c32(0)), Err(TrapKind::DivisionByZero));
    }
    for x in SAMPLES_64 {
        assert_eq!(i64_ops::div_s(c64(x), c64(0)), Err(TrapKind::DivisionByZero));
        assert_eq!(i64_ops::div_u(c64(x), c64(0)), Err(TrapKind::DivisionByZero));
        assert_eq!(i64_ops::rem_s(c64(x), c64(0)), Err(TrapKind::DivisionByZero));
        assert_eq!(i64_ops::rem_u(c64(x), c64(0)), Err(TrapKind::DivisionByZero));
    }
}

#[test]
fn signed_division_rounds_towards_zero() {
    assert_eq!(i32_ops::div_s(c32(7), c32(2)), Ok(c32(3)));
    assert_eq!(i32_ops::div_s(c32(-7), c32(2)), Ok(c32(-3)));
    assert_eq!(i32_ops::div_s(c32(7), c32(-2)), Ok(c32(-3)));
    assert_eq!(i32_ops::div_s(c32(-7), c32(-2)), Ok(c32(3)));
    assert_eq!(i32_ops::rem_s(c32(7), c32(2)), Ok(c32(1)));
    assert_eq!(i32_ops::rem_s(c32(-7), c32(2)), Ok(c32(-1)));
    assert_eq!(i32_ops::rem_s(c32(7), c32(-2)), Ok(c32(1)));
    assert_eq!(i32_ops::rem_s(c32(-7), c32(-2)), Ok(c32(-1)));
    assert_eq!(i64_ops::div_s(c64(-7), c64(2)), Ok(c64(-3)));
    assert_eq!(i64_ops::rem_s(c64(-7), c64(2)), Ok(c64(-1)));
    assert_eq!(i64_ops::div_s(c64(i64::MIN), c64(2)), Ok(c64(i64::MIN / 2)));
    assert_eq!(i32_ops::div_s(c32(i32::MIN), c32(1)), Ok(c32(i32::MIN)));
    assert_eq!(i32_ops::div_s(c32(0), c32(-5)), Ok(c32(0)));
}

#[test]
fn unsigned_division_reads_the_operand_unsigned() {
    assert_eq!(i32_ops::div_u(c32(-1), c32(2)), Ok(c32(0x7fff_ffff)));
    assert_eq!(i32_ops::rem_u(c32(-1), c32(16)), Ok(c32(15)));
    assert_eq!(i32_ops::div_u(c32(i32::MIN), c32(-1)), Ok(c32(0)));
    assert_eq!(i64_ops::div_u(c64(-1), c64(2)), Ok(c64(i64::MAX)));
    assert_eq!(i64_ops::rem_u(c64(-1), c64(16)), Ok(c64(15)));
    assert_eq!(i64_ops::div_u(c64(i64::MIN), c64(-1)), Ok(c64(0)));
}

#[test]
fn bit_counts() {
    assert_eq!(i32_ops::clz(c32(0)), c32(32));
    assert_eq!(i32_ops::clz(c32(1)), c32(31));
    assert_eq!(i32_ops::clz(c32(-1)), c32(0));
    assert_eq!(i32_ops::ctz(c32(0)), c32(32));
    assert_eq!(i32_ops::ctz(c32(8)), c32(3));
    assert_eq!(i32_ops::popcnt(c32(0)), c32(0));
    assert_eq!(i32_ops::popcnt(c32(-1)), c32(32));
    assert_eq!(i32_ops::popcnt(c32(0x0f0f_0001)), c32(9));
    assert_eq!(i64_ops::clz(c64(0)), c64(64));
    assert_eq!(i64_ops::clz(c64(1)), c64(63));
    assert_eq!(i64_ops::ctz(c64(0)), c64(64));
    assert_eq!(i64_ops::ctz(c64(1 << 40)), c64(40));
    assert_eq!(i64_ops::popcnt(c64(-1)), c64(64));
    assert_eq!(i64_ops::popcnt(c64(0x8000_0000_0000_0001u64 as i64)), c64(2));
    for x in SAMPLES_32 {
        assert_eq!(i32_ops::popcnt(c32(x)), c32(x.count_ones() as i32));
        assert_eq!(i32_ops::clz(c32(x)), c32(x.leading_zeros() as i32));
        assert_eq!(i32_ops::ctz(c32(x)), c32(x.trailing_zeros() as i32));
    }
    for x in SAMPLES_64 {
        assert_eq!(i64_ops::popcnt(c64(x)), c64(x.count_ones() as i64));
        assert_eq!(i64_ops::clz(c64(x)), c64(x.leading_zeros() as i64));
        assert_eq!(i64_ops::ctz(c64(x)), c64(x.trailing_zeros() as i64));
    }
}

#[test]
fn comparisons_give_one_or_zero() {
    assert_eq!(i32_ops::eqz(c32(0)), StackValue(1));
    assert_eq!(i32_ops::eqz(c32(5)), StackValue(0));
    assert_eq!(i32_ops::eq(c32(5), c32(5)), StackValue(1));
    assert_eq!(i32_ops::ne(c32(5), c32(5)), StackValue(0));
    assert_eq!(i32_ops::lt_s(c32(-1), c32(1)), StackValue(1));
    assert_eq!(i32_ops::lt_u(c32(-1), c32(1)), StackValue(0));
    assert_eq!(i32_ops::gt_s(c32(-1), c32(1)), StackValue(0));
    assert_eq!(i32_ops::gt_u(c32(-1), c32(1)), StackValue(1));
    assert_eq!(i32_ops::le_s(c32(1), c32(1)), StackValue(1));
    assert_eq!(i32_ops::le_u(c32(2), c32(1)), StackValue(0));
    assert_eq!(i32_ops::ge_s(c32(1), c32(1)), StackValue(1));
    assert_eq!(i32_ops::ge_u(c32(0), c32(-1)), StackValue(0));
    assert_eq!(i64_ops::eqz(c64(0)), StackValue(1));
    assert_eq!(i64_ops::eq(c64(1 << 40), c64(1 << 40)), StackValue(1));
    assert_eq!(i64_ops::ne(c64(1 << 40), c64(0)), StackValue(1));
    assert_eq!(i64_ops::lt_s(c64(-1), c64(1)), StackValue(1));
    assert_eq!(i64_ops::lt_u(c64(-1), c64(1)), StackValue(0));
    assert_eq!(i64_ops::gt_s(c64(i64::MIN), c64(i64::MAX)), StackValue(0));
    assert_eq!(i64_ops::gt_u(c64(i64::MIN), c64(i64::MAX)), StackValue(1));
    assert_eq!(i64_ops::le_s(c64(3), c64(3)), StackValue(1));
    assert_eq!(i64_ops::le_u(c64(4), c64(3)), StackValue(0));
    assert_eq!(i64_ops::ge_s(c64(3), c64(4)), StackValue(0));
    assert_eq!(i64_ops::ge_u(c64(-1), c64(4)), StackValue(1));
}

#[test]
fn cells_round_trip() {
    assert_eq!(i32_ops::to_signed(i32_ops::from_signed(-5)), -5);
    assert_eq!(i32_ops::to_unsigned(i32_ops::from_unsigned(0xffff_fff0)), 0xffff_fff0);
    assert_eq!(i32_ops::from_unsigned(0xffff_ffff), StackValue(u64::MAX));
    assert_eq!(i32_ops::from_bool(true), StackValue(1));
    assert_eq!(i64_ops::to_signed(i64_ops::from_signed(i64::MIN)), i64::MIN);
    assert_eq!(i64_ops::to_unsigned(i64_ops::from_unsigned(u64::MAX)), u64::MAX);
    assert_eq!(i64_ops::from_bool(false), StackValue(0));
}

#[test]
fn kernels_are_selected_by_tag() {
    assert_eq!(apply_binary(BinOp::I32Add, c32(2), c32(3)), Ok(c32(5)));
    assert_eq!(apply_binary(BinOp::I64Sub, c64(2), c64(3)), Ok(c64(-1)));
    assert_eq!(apply_binary(BinOp::I64Mul, c64(6), c64(7)), Ok(c64(42)));
    assert_eq!(apply_binary(BinOp::I32DivS, c32(1), c32(0)), Err(TrapKind::DivisionByZero));
    assert_eq!(apply_binary(BinOp::I64RemU, c64(10), c64(4)), Ok(c64(2)));
    assert_eq!(apply_binary(BinOp::I32LtU, c32(-1), c32(1)), Ok(StackValue(0)));
    assert_eq!(apply_binary(BinOp::I64GeS, c64(-1), c64(-1)), Ok(StackValue(1)));
    assert_eq!(apply_binary(BinOp::I32Xor, c32(0b1100), c32(0b1010)), Ok(c32(0b0110)));
    assert_eq!(apply_unary(UnOp::I32Eqz, c32(0)), StackValue(1));
    assert_eq!(apply_unary(UnOp::I64Popcnt, c64(0xff)), c64(8));
    assert_eq!(apply_unary(UnOp::I32Clz, c32(0x0000_ffff)), c32(16));
    assert_eq!(apply_unary(UnOp::I64Ctz, c64(0x100)), c64(8));
}
