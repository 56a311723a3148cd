use vstd::prelude::*;

verus! {

/// A failure raised while code is running. No trap is recovered inside the
/// machine: each one unwinds to the host call that started the execution.
#[derive(Debug, Clone, Copy, PartialEq, Eq, Structural)]
pub enum TrapKind {
    InvalidFunctionAddr,
    Unreachable,
    MemoryAccessOutOfBounds,
    TableAccessOutOfBounds,
    ElemUninitialized,
    DivisionByZero,
    InvalidConversionToInt,
    StackOverflow,
    StackUnderflow,
    UnexpectedSignature,
    NotImplemented,
}

pub type Trap<T, K = TrapKind> = core::result::Result<T, K>;

/// A failure raised while loading a module or at the boundary of a host call.
#[derive(Debug, Clone, PartialEq, Eq)]
pub enum Error {
    FuncNotFound,
    FuncExists,
    ModuleNotFound,
    ModuleExists,
    /// The module bytes could not be decoded; the detail is the decoder's.
    ParseError(String),
    /// The module was decoded but is not a valid module.
    ValidationError(String),
    /// A trap that reached the host.
    RuntimeError(TrapKind),
    /// The registry has been handed to an instance and can no longer grow.
    CannotModifyShared,
}

impl From<TrapKind> for Error {
    fn from(trap: TrapKind) -> (e: Error) {
        Error::RuntimeError(trap)
    }
}

impl vstd::std_specs::convert::FromSpecImpl<TrapKind> for Error {
    open spec fn obeys_from_spec() -> bool {
        true
    }

    open spec fn from_spec(trap: TrapKind) -> Error {
        Error::RuntimeError(trap)
    }
}

} // verus!
