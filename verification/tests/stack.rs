use s1vm::{
    Frame, FromStack, FromValue, Stack, StackValue, TrapKind, Value, ValueType, DEFAULT_STACK_LIMIT,
};

#[test]
fn new_stack_has_default_limit() {
    let stack = Stack::new();
    assert_eq!(stack.len(), 0);
    assert_eq!(stack.limit(), DEFAULT_STACK_LIMIT);
    assert_eq!(stack.limit(), 1_048_576);
    assert_eq!(stack.frame(), Frame { bp: 0, sbp: 0 });
    assert_eq!(stack.frame_size(), 0);
}

#[test]
fn push_and_pop_are_last_in_first_out() {
    let mut stack = Stack::new();
    stack.push_val(StackValue(1)).unwrap();
    stack.push_val(StackValue(2)).unwrap();
    assert_eq!(stack.len(), 2);
    assert_eq!(stack.top_val(), Ok(StackValue(2)));
    assert_eq!(stack.pop_val(), Ok(StackValue(2)));
    assert_eq!(stack.pop_val(), Ok(StackValue(1)));
    assert_eq!(stack.len(), 0);
}

#[test]
fn pop_on_empty_frame_underflows() {
    let mut stack = Stack::new();
    assert_eq!(stack.pop_val(), Err(TrapKind::StackUnderflow));
    assert_eq!(stack.top_val(), Err(TrapKind::StackUnderflow));
    stack.push_val(StackValue(5)).unwrap();
    stack.push_frame(1, 0).unwrap();
    // the parameter is a local of the new frame, not an operand
    assert_eq!(stack.pop_val(), Err(TrapKind::StackUnderflow));
    assert_eq!(stack.len(), 1);
}

#[test]
fn push_beyond_limit_overflows() {
    let mut stack = Stack::new_with_limit(2);
    assert_eq!(stack.push_val(StackValue(1)), Ok(()));
    assert_eq!(stack.push_val(StackValue(2)), Ok(()));
    assert_eq!(stack.push_val(StackValue(3)), Err(TrapKind::StackOverflow));
    assert_eq!(stack.len(), 2);
    assert_eq!(stack.top_val(), Ok(StackValue(2)));
}

#[test]
fn push_params_returns_old_length() {
    let mut stack = Stack::new();
    stack.push_val(StackValue(9)).unwrap();
    let old = stack.push_params(&[Value::I32(-1), Value::I64(7), Value::F32(3), Value::F64(4)]);
    assert_eq!(old, Ok(1));
    assert_eq!(stack.len(), 5);
    assert_eq!(stack.pop_val(), Ok(StackValue(4)));
    assert_eq!(stack.pop_val(), Ok(StackValue(3)));
    assert_eq!(stack.pop_val(), Ok(StackValue(7)));
    assert_eq!(stack.pop_val(), Ok(StackValue(0xffff_ffff_ffff_ffff)));
}

#[test]
fn push_params_that_do_not_fit_change_nothing() {
    let mut stack = Stack::new_with_limit(2);
    stack.push_val(StackValue(9)).unwrap();
    let res = stack.push_params(&[Value::I64(1), Value::I64(2)]);
    assert_eq!(res, Err(TrapKind::StackOverflow));
    assert_eq!(stack.len(), 1);
}

#[test]
fn push_frame_takes_params_and_zeroes_locals() {
    let mut stack = Stack::new();
    stack.push_val(StackValue(10)).unwrap();
    stack.push_val(StackValue(20)).unwrap();
    stack.push_val(StackValue(30)).unwrap();
    let prev = stack.push_frame(2, 3).unwrap();
    assert_eq!(prev, Frame { bp: 0, sbp: 0 });
    assert_eq!(stack.frame(), Frame { bp: 1, sbp: 6 });
    assert_eq!(stack.len(), 6);
    assert_eq!(stack.frame_size(), 0);
    let l0 = StackValue(20);
    assert_eq!(stack.get_local_val(0, &l0), Ok(StackValue(20)));
    assert_eq!(stack.get_local_val(1, &l0), Ok(StackValue(30)));
    assert_eq!(stack.get_local_val(2, &l0), Ok(StackValue(0)));
    assert_eq!(stack.get_local_val(4, &l0), Ok(StackValue(0)));
    stack.pop_frame(prev);
    assert_eq!(stack.frame(), Frame { bp: 0, sbp: 0 });
    assert_eq!(stack.len(), 1);
    assert_eq!(stack.top_val(), Ok(StackValue(10)));
}

#[test]
fn push_frame_needs_its_params_and_room() {
    let mut stack = Stack::new_with_limit(4);
    stack.push_val(StackValue(1)).unwrap();
    assert_eq!(stack.push_frame(2, 0), Err(TrapKind::StackOverflow));
    assert_eq!(stack.push_frame(1, 4), Err(TrapKind::StackOverflow));
    assert_eq!(stack.len(), 1);
    assert_eq!(stack.frame(), Frame { bp: 0, sbp: 0 });
    assert_eq!(stack.push_frame(1, 3), Ok(Frame { bp: 0, sbp: 0 }));
    assert_eq!(stack.len(), 4);
}

#[test]
fn reserve_locals_appends_zeroes() {
    let mut stack = Stack::new_with_limit(3);
    stack.push_val(StackValue(1)).unwrap();
    assert_eq!(stack.reserve_locals(2), Ok(()));
    assert_eq!(stack.len(), 3);
    assert_eq!(stack.top_val(), Ok(StackValue(0)));
    assert_eq!(stack.reserve_locals(1), Err(TrapKind::StackOverflow));
    assert_eq!(stack.len(), 3);
}

#[test]
fn locals_outside_the_frame_are_out_of_reach() {
    let mut stack = Stack::new();
    stack.push_val(StackValue(111)).unwrap();
    stack.push_val(StackValue(1)).unwrap();
    stack.push_frame(1, 1).unwrap();
    stack.push_val(StackValue(222)).unwrap();
    let mut l0 = StackValue(1);
    for idx in 2..64u32 {
        assert_eq!(stack.get_local_val(idx, &l0), Err(TrapKind::StackOverflow));
        assert_eq!(stack.set_local_val(idx, StackValue(9), &mut l0), Err(TrapKind::StackOverflow));
        assert_eq!(stack.get_local(idx), Err(TrapKind::StackOverflow));
        assert_eq!(stack.set_local(idx), Err(TrapKind::StackOverflow));
        assert_eq!(stack.tee_local(idx), Err(TrapKind::StackOverflow));
    }
    assert_eq!(stack.len(), 4);
    assert_eq!(stack.pop_val(), Ok(StackValue(222)));
    assert_eq!(l0, StackValue(1));
}

#[test]
fn local_zero_lives_in_the_register() {
    let mut stack = Stack::new();
    stack.push_val(StackValue(5)).unwrap();
    stack.push_frame(1, 1).unwrap();
    let mut l0 = StackValue(5);
    assert_eq!(stack.set_local_val(0, StackValue(42), &mut l0), Ok(()));
    assert_eq!(l0, StackValue(42));
    assert_eq!(stack.get_local_val(0, &l0), Ok(StackValue(42)));
    // the slot itself is not touched
    assert_eq!(stack.get_local(0), Ok(()));
    assert_eq!(stack.pop_val(), Ok(StackValue(5)));
    assert_eq!(stack.set_local_val(1, StackValue(43), &mut l0), Ok(()));
    assert_eq!(l0, StackValue(42));
    assert_eq!(stack.get_local_val(1, &l0), Ok(StackValue(43)));
}

#[test]
fn register_and_slot_give_the_same_locals() {
    // the same writes through the register path and through the slot path
    let mut fast = Stack::new();
    fast.push_val(StackValue(1)).unwrap();
    fast.push_val(StackValue(2)).unwrap();
    fast.push_frame(2, 0).unwrap();
    let mut l0 = StackValue(1);
    fast.set_local_val(0, StackValue(70), &mut l0).unwrap();
    fast.set_local_val(1, StackValue(80), &mut l0).unwrap();

    let mut slow = Stack::new();
    slow.push_val(StackValue(1)).unwrap();
    slow.push_val(StackValue(2)).unwrap();
    slow.push_frame(2, 0).unwrap();
    slow.push_val(StackValue(70)).unwrap();
    slow.set_local(0).unwrap();
    slow.push_val(StackValue(80)).unwrap();
    slow.set_local(1).unwrap();

    for idx in 0..2u32 {
        slow.get_local(idx).unwrap();
        assert_eq!(fast.get_local_val(idx, &l0), slow.pop_val());
    }
}

#[test]
fn get_set_and_tee_move_operands() {
    let mut stack = Stack::new();
    stack.push_val(StackValue(5)).unwrap();
    stack.push_val(StackValue(6)).unwrap();
    stack.push_frame(2, 0).unwrap();
    assert_eq!(stack.get_local(1), Ok(()));
    assert_eq!(stack.top_val(), Ok(StackValue(6)));
    assert_eq!(stack.tee_local(0), Ok(()));
    assert_eq!(stack.frame_size(), 1);
    assert_eq!(stack.set_local(1), Ok(()));
    assert_eq!(stack.frame_size(), 0);
    assert_eq!(stack.set_local(0), Err(TrapKind::StackUnderflow));
    assert_eq!(stack.tee_local(0), Err(TrapKind::StackUnderflow));
    assert_eq!(stack.get_local(0), Ok(()));
    assert_eq!(stack.pop_val(), Ok(StackValue(6)));
}

#[test]
fn get_local_on_full_stack_overflows() {
    let mut stack = Stack::new_with_limit(1);
    stack.push_val(StackValue(5)).unwrap();
    stack.push_frame(1, 0).unwrap();
    assert_eq!(stack.get_local(0), Err(TrapKind::StackOverflow));
}

#[test]
fn drop_values_stops_at_the_frame() {
    let mut stack = Stack::new();
    stack.push_val(StackValue(1)).unwrap();
    stack.push_frame(1, 0).unwrap();
    stack.push_val(StackValue(2)).unwrap();
    stack.push_val(StackValue(3)).unwrap();
    assert_eq!(stack.drop_values(3), Err(TrapKind::StackUnderflow));
    assert_eq!(stack.len(), 3);
    assert_eq!(stack.drop_values(2), Ok(()));
    assert_eq!(stack.len(), 1);
    assert_eq!(stack.drop_values(0), Ok(()));
}

#[test]
fn push_cells_appends_in_order() {
    let mut stack = Stack::new_with_limit(3);
    assert_eq!(stack.push_cells(&vec![StackValue(1), StackValue(2)]), Ok(()));
    assert_eq!(stack.push_cells(&vec![StackValue(3), StackValue(4)]), Err(TrapKind::StackOverflow));
    assert_eq!(stack.len(), 2);
    assert_eq!(stack.pop_val(), Ok(StackValue(2)));
}

#[test]
fn pop_typed_reads_at_the_type() {
    let mut stack = Stack::new();
    stack.push_val(StackValue(0xffff_ffff_ffff_fffe)).unwrap();
    assert_eq!(stack.pop_typed(ValueType::I32), Ok(Value::I32(-2)));
    stack.push_val(StackValue(0xffff_ffff_ffff_fffe)).unwrap();
    assert_eq!(stack.pop_typed(ValueType::I64), Ok(Value::I64(-2)));
    stack.push_val(StackValue(0x1_4000_0000)).unwrap();
    assert_eq!(stack.pop_typed(ValueType::F32), Ok(Value::F32(0x4000_0000)));
    stack.push_val(StackValue(0x4000_0000_0000_0000)).unwrap();
    assert_eq!(stack.pop_typed(ValueType::F64), Ok(Value::F64(2.0f64.to_bits())));
    assert_eq!(stack.pop_typed(ValueType::I32), Err(TrapKind::StackUnderflow));
}

#[test]
fn cell_of_value_and_back() {
    assert_eq!(StackValue::from(Value::I32(-1)), StackValue(u64::MAX));
    assert_eq!(StackValue::from(Value::I64(-1)), StackValue(u64::MAX));
    assert_eq!(StackValue::from(Value::F32(0x8000_0000)), StackValue(0x8000_0000));
    assert_eq!(StackValue::from(Value::F64(1)), StackValue(1));
    assert_eq!(StackValue(5).to_value(ValueType::I64), Value::I64(5));
    assert_eq!(StackValue(u64::MAX).to_value(ValueType::I32), Value::I32(-1));
    assert_eq!(StackValue(u64::MAX).to_value(ValueType::F32), Value::F32(u32::MAX));
}

#[test]
fn numbers_convert_to_cells_and_back() {
    assert_eq!(StackValue::from(-1i8), StackValue(u64::MAX));
    assert_eq!(StackValue::from(255u8), StackValue(255));
    assert_eq!(StackValue::from(-2i16), StackValue(u64::MAX - 1));
    assert_eq!(StackValue::from(65535u16), StackValue(65535));
    assert_eq!(StackValue::from(i32::MIN), StackValue(0xffff_ffff_8000_0000));
    assert_eq!(StackValue::from(u32::MAX), StackValue(0xffff_ffff));
    assert_eq!(StackValue::from(i64::MIN), StackValue(0x8000_0000_0000_0000));
    assert_eq!(StackValue::from(u64::MAX), StackValue(u64::MAX));
    assert_eq!(<i8 as FromValue>::from_value(StackValue(0x1ff)), -1);
    assert_eq!(<u8 as FromValue>::from_value(StackValue(0x1ff)), 255);
    assert_eq!(<i16 as FromValue>::from_value(StackValue(0x1_8000)), i16::MIN);
    assert_eq!(<u16 as FromValue>::from_value(StackValue(0x1_8000)), 0x8000);
    assert_eq!(<i32 as FromValue>::from_value(StackValue(0xffff_ffff)), -1);
    assert_eq!(<u32 as FromValue>::from_value(StackValue(0x1_0000_0001)), 1);
    assert_eq!(<i64 as FromValue>::from_value(StackValue(u64::MAX)), -1);
    assert_eq!(<u64 as FromValue>::from_value(StackValue(7)), 7);
}

#[test]
fn typed_push_and_pop() {
    let mut stack = Stack::new();
    FromStack::<i32>::push(&mut stack, -5).unwrap();
    FromStack::<u64>::push(&mut stack, 6).unwrap();
    let top: u64 = stack.pop().unwrap();
    assert_eq!(top, 6);
    let next: i32 = stack.pop().unwrap();
    assert_eq!(next, -5);
    let none: Result<i32, TrapKind> = stack.pop();
    assert_eq!(none, Err(TrapKind::StackUnderflow));
}

#[test]
fn pop_pair_gives_deeper_first() {
    let mut stack = Stack::new();
    FromStack::<i64>::push(&mut stack, 1).unwrap();
    let short: Result<(i64, i64), TrapKind> = stack.pop_pair();
    assert_eq!(short, Err(TrapKind::StackUnderflow));
    assert_eq!(stack.len(), 1);
    FromStack::<i64>::push(&mut stack, 2).unwrap();
    let pair: (i64, i64) = stack.pop_pair().unwrap();
    assert_eq!(pair, (1, 2));
    assert_eq!(stack.len(), 0);
}

#[test]
fn unop_replaces_the_top() {
    let mut stack = Stack::new();
    assert_eq!(stack.unop(|val| Ok(StackValue(val.0 + 1))), Err(TrapKind::StackUnderflow));
    stack.push_val(StackValue(41)).unwrap();
    assert_eq!(stack.unop(|val| Ok(StackValue(val.0 + 1))), Ok(()));
    assert_eq!(stack.top_val(), Ok(StackValue(42)));
    assert_eq!(stack.unop(|_| Err(TrapKind::Unreachable)), Err(TrapKind::Unreachable));
    assert_eq!(stack.top_val(), Ok(StackValue(42)));
    assert_eq!(stack.len(), 1);
}

#[test]
fn binop_replaces_the_two_topmost() {
    let mut stack = Stack::new();
    stack.push_val(StackValue(10)).unwrap();
    assert_eq!(stack.binop(|l, r| Ok(StackValue(l.0 - r.0))), Err(TrapKind::StackUnderflow));
    assert_eq!(stack.len(), 1);
    stack.push_val(StackValue(3)).unwrap();
    assert_eq!(stack.binop(|l, r| Ok(StackValue(l.0 - r.0))), Ok(()));
    assert_eq!(stack.len(), 1);
    assert_eq!(stack.top_val(), Ok(StackValue(7)));
    stack.push_val(StackValue(0)).unwrap();
    assert_eq!(stack.binop(s1vm::i64_ops::div_s), Err(TrapKind::DivisionByZero));
    assert_eq!(stack.len(), 2);
}

#[test]
fn default_stack_is_new() {
    let stack = Stack::default();
    assert_eq!(stack.len(), 0);
    assert_eq!(stack.limit(), DEFAULT_STACK_LIMIT);
    assert_eq!(Frame::default(), Frame { bp: 0, sbp: 0 });
}
