use s1vm::{Error, FunctionType, TrapKind, Value, ValueType};

#[test]
fn it_works() {
    assert_eq!(2 + 2, 4);
}

#[test]
fn function_type_starts_empty() {
    let func_type = FunctionType::new();
    assert_eq!(func_type.param_count(), 0);
    assert!(func_type.ret_type.is_none());
    let func_type = FunctionType {
        params: vec![ValueType::I32, ValueType::I64],
        ret_type: Some(ValueType::I64),
    };
    assert_eq!(func_type.param_count(), 2);
}

#[test]
fn trap_becomes_runtime_error() {
    assert_eq!(Error::from(TrapKind::DivisionByZero), Error::RuntimeError(TrapKind::DivisionByZero));
    assert_eq!(Error::from(TrapKind::Unreachable), Error::RuntimeError(TrapKind::Unreachable));
}

#[test]
fn values_compare_by_tag_and_payload() {
    assert_eq!(Value::I32(7), Value::I32(7));
    assert_ne!(Value::I32(7), Value::I64(7));
    assert_eq!(Value::F32(1.5f32.to_bits()), Value::F32(0x3fc0_0000));
}
