//! An in-process virtual machine for WebAssembly functions.
//!
//! A decoded module is translated into a tree of blocks whose statements
//! and operands are plain data, registered in a [`State`], and executed on a
//! per-invocation [`Store`] whose stack carries the locals of every active
//! frame. The module `isa` holds the other translation, into flat code with
//! absolute branch targets.

pub mod compiler;
pub mod engine;
pub mod error;
pub mod function;
pub mod i32_ops;
pub mod i64_ops;
pub mod isa;
pub mod kernel;
pub mod module;
pub mod op;
pub mod semantics;
pub mod stack;
pub mod tree;
pub mod value;
pub mod vm;

pub use error::{Error, Trap, TrapKind};
pub use function::{CompiledFunction, Function, FunctionBody, HostFunction};
pub use isa::{compile_function, Instruction};
pub use module::{DecodedFunction, DecodedModule, Export, Module, ModuleInstance};
pub use op::OpCode;
pub use stack::{
    Frame, FromStack, FromValue, Stack, StackPtr, StackValue, StackView, DEFAULT_STACK_LIMIT,
    INIT_STACK_SIZE,
};
pub use tree::Action;
pub use value::{
    ConstF32, ConstF64, ConstI32, ConstI64, FuncAddr, FuncIdx, FunctionType, GlobalAddr,
    GlobalIdx, LabelIdx, LocalIdx, MemAddr, MemIdx, ModuleInstanceAddr, RetValue, TableAddr,
    TableIdx, TypeIdx, Value, ValueType,
};
pub use vm::{State, Store, VMInstance, DEFAULT_DEPTH_LIMIT, VM};
