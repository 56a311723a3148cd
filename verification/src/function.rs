use vstd::prelude::*;

use crate::module::DecodedFunction;
use crate::tree::{Block, BlockView};
use crate::value::{FunctionType, ValueType};

verus! {

/// A function body translated into a block tree, with the types of the
/// locals it declares beyond its parameters. Its frame holds the
/// parameters, the locals and the operand slots, in this order.
#[derive(Debug)]
pub struct CompiledFunction {
    pub local_types: Vec<ValueType>,
    /// The number of slots that the body needs behind the locals for the
    /// operands of the source program.
    pub operands: usize,
    pub run: Block,
}

/// A function that the host provides, named by its place in the host's
/// registry.
#[derive(Debug, Clone, Copy)]
pub struct HostFunction {
    pub mod_idx: usize,
    pub func_idx: usize,
}

#[derive(Debug)]
pub enum FunctionBody {
    Compiled(CompiledFunction),
    Host(HostFunction),
}

#[derive(Debug)]
pub struct Function {
    pub name: String,
    pub func_type: FunctionType,
    pub body: FunctionBody,
}

/// What the body of a function is.
pub enum BodyView {
    Compiled { local_types: Seq<ValueType>, operands: nat, run: BlockView },
    Host(HostFunction),
}

/// What a function is: its name, its type and its body.
pub struct FunctionView {
    pub name: Seq<char>,
    pub params: Seq<ValueType>,
    pub ret_type: Option<ValueType>,
    pub body: BodyView,
}

impl View for Function {
    type V = FunctionView;

    open spec fn view(&self) -> FunctionView {
        FunctionView {
            name: self.name@,
            params: self.func_type.params@,
            ret_type: self.func_type.ret_type,
            body: match self.body {
                FunctionBody::Compiled(body) => BodyView::Compiled {
                    local_types: body.local_types@,
                    operands: body.operands as nat,
                    run: body.run@,
                },
                FunctionBody::Host(host) => BodyView::Host(host),
            },
        }
    }
}

/// A copy of a list of value types.
pub fn copy_types(types: &Vec<ValueType>) -> (res: Vec<ValueType>)
    ensures
        res@ == types@,
{
    let mut res: Vec<ValueType> = Vec::new();
    let mut idx: usize = 0;
    while idx < types.len()
        invariant
            idx <= types@.len(),
            res@ == types@.take(idx as int),
        decreases types@.len() - idx,
    {
        res.push(types[idx]);
        idx = idx + 1;
        assert(res@ =~= types@.take(idx as int));
    }
    assert(types@.take(idx as int) =~= types@);
    res
}

impl Function {
    /// The function that the decoder delivered as `func`, with `run` as
    /// its translated body, which needs `operands` slots behind the locals.
    pub fn new(func: &DecodedFunction, operands: usize, run: Block) -> (f: Function)
        ensures
            f@ == (FunctionView {
                name: func.name@,
                params: func.func_type.params@,
                ret_type: func.func_type.ret_type,
                body: BodyView::Compiled {
                    local_types: func.locals@,
                    operands: operands as nat,
                    run: run@,
                },
            }),
    {
        Function {
            name: func.name.clone(),
            func_type: FunctionType {
                params: copy_types(&func.func_type.params),
                ret_type: func.func_type.ret_type,
            },
            body: FunctionBody::Compiled(
                CompiledFunction { local_types: copy_types(&func.locals), operands, run },
            ),
        }
    }

    /// The function that the decoder delivered as the import `func`.
    pub fn host(func: &DecodedFunction, mod_idx: usize, func_idx: usize) -> (f: Function)
        ensures
            f@ == (FunctionView {
                name: func.name@,
                params: func.func_type.params@,
                ret_type: func.func_type.ret_type,
                body: BodyView::Host(HostFunction { mod_idx, func_idx }),
            }),
    {
        Function {
            name: func.name.clone(),
            func_type: FunctionType {
                params: copy_types(&func.func_type.params),
                ret_type: func.func_type.ret_type,
            },
            body: FunctionBody::Host(HostFunction { mod_idx, func_idx }),
        }
    }

    pub open spec fn params(&self) -> nat {
        self.func_type.params@.len()
    }

    pub fn param_count(&self) -> (n: usize)
        ensures
            n == self.params(),
    {
        self.func_type.param_count()
    }

    pub fn ret_type(&self) -> (t: Option<ValueType>)
        ensures
            t == self.func_type.ret_type,
    {
        self.func_type.ret_type
    }
}

} // verus!
