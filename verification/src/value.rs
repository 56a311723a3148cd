use vstd::prelude::*;

verus! {

#[derive(Debug, Clone, Copy, PartialEq, Eq, Structural)]
pub enum ValueType {
    I32,
    I64,
    F32,
    F64,
}

/// A tagged value as it crosses the host boundary. The two float variants
/// carry the IEEE-754 bit pattern of the number, so that every conversion to
/// and from a stack cell is exact.
#[derive(Debug, Clone, Copy, PartialEq, Eq, Structural)]
pub enum Value {
    I32(i32),
    I64(i64),
    F32(u32),
    F64(u64),
}

impl Value {
    pub open spec fn value_type(self) -> ValueType {
        match self {
            Value::I32(_) => ValueType::I32,
            Value::I64(_) => ValueType::I64,
            Value::F32(_) => ValueType::F32,
            Value::F64(_) => ValueType::F64,
        }
    }
}

pub type RetValue = Option<Value>;

pub type ConstI32 = i32;

pub type ConstI64 = i64;

/// Bit pattern of a 32-bit float constant.
pub type ConstF32 = u32;

/// Bit pattern of a 64-bit float constant.
pub type ConstF64 = u64;

pub type TypeIdx = u32;

pub type FuncIdx = u32;

pub type TableIdx = u32;

pub type MemIdx = u32;

pub type GlobalIdx = u32;

pub type LocalIdx = u32;

pub type LabelIdx = u32;

pub type ModuleInstanceAddr = u32;

pub type FuncAddr = u32;

pub type TableAddr = u32;

pub type MemAddr = u32;

pub type GlobalAddr = u32;

/// Parameter types in order, and at most one result type.
#[derive(Debug)]
pub struct FunctionType {
    pub params: Vec<ValueType>,
    pub ret_type: Option<ValueType>,
}

impl FunctionType {
    pub fn new() -> (t: FunctionType)
        ensures
            t.params@ == Seq::<ValueType>::empty(),
            t.ret_type is None,
    {
        FunctionType { params: Vec::new(), ret_type: None }
    }

    pub fn param_count(&self) -> (n: usize)
        ensures
            n == self.params@.len(),
    {
        self.params.len()
    }
}

impl Default for FunctionType {
    fn default() -> (t: FunctionType)
        ensures
            t.params@ == Seq::<ValueType>::empty(),
            t.ret_type is None,
    {
        FunctionType::new()
    }
}

} // verus!
