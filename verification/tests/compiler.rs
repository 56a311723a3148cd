use s1vm::compiler::{classify, Compiler, Shape, State, DEFAULT_MAX_DEPTH};
use s1vm::kernel::{BinOp, UnOp};
use s1vm::tree::{Args, BlockKind, Eval, Input, Op};
use s1vm::OpCode::{
    Block, Br, BrIf, BrTable, Call, CallIndirect, Drop, Else, End, F32Add, F64Const, GetGlobal,
    GetLocal, I32Const, I32Eqz, I32Load, I32Store, I64Add, I64Const, I64Sub, If, Loop, Nop, Return,
    Select, SetGlobal, SetLocal, TeeLocal, Unreachable,
};
use s1vm::{
    DecodedFunction, DecodedModule, Error, Function, FunctionBody, FunctionType, OpCode,
    StackValue, TrapKind, ValueType,
};

fn func(params: usize, result: bool, locals: usize, code: Vec<OpCode>) -> DecodedFunction {
    DecodedFunction {
        name: "f".to_string(),
        func_type: FunctionType {
            params: vec![ValueType::I64; params],
            ret_type: if result { Some(ValueType::I64) } else { None },
        },
        is_imported: false,
        locals: vec![ValueType::I64; locals],
        code,
    }
}

fn module(functions: Vec<DecodedFunction>) -> DecodedModule {
    DecodedModule { types: vec![], functions, exports: vec![] }
}

fn compile(functions: Vec<DecodedFunction>, base: u32) -> Result<Vec<Function>, Error> {
    let module = module(functions);
    Compiler::new(&module, 3, base).compile()
}

fn body(function: &Function) -> &s1vm::tree::Block {
    match &function.body {
        FunctionBody::Compiled(body) => &body.run,
        FunctionBody::Host(_) => panic!("host function"),
    }
}

fn one(params: usize, result: bool, code: Vec<OpCode>) -> s1vm::tree::Block {
    let mut compiled = compile(vec![func(params, result, 0, code)], 0).unwrap();
    match compiled.remove(0).body {
        FunctionBody::Compiled(body) => body.run,
        FunctionBody::Host(_) => panic!("host function"),
    }
}

fn one_with_locals(params: usize, locals: usize, code: Vec<OpCode>) -> s1vm::tree::Block {
    let mut compiled = compile(vec![func(params, true, locals, code)], 0).unwrap();
    match compiled.remove(0).body {
        FunctionBody::Compiled(body) => body.run,
        FunctionBody::Host(_) => panic!("host function"),
    }
}

fn is_invalid(code: Vec<OpCode>) -> bool {
    matches!(compile(vec![func(1, true, 0, code)], 0), Err(Error::ValidationError(_)))
}

fn op(op: Op) -> Input {
    Input::Op(Box::new(op))
}

fn cell(v: i64) -> Input {
    Input::Const(StackValue(v as u64))
}

#[test]
fn operands_compose_into_one_expression() {
    // (l0 + 1) - l1
    let block =
        one(2, true, vec![GetLocal(0), I64Const(1), I64Add, GetLocal(1), I64Sub, End]);
    let sum = op(Op::Binary(BinOp::I64Add, Input::Local(0), cell(1)));
    let diff = op(Op::Binary(BinOp::I64Sub, sum, Input::Local(1)));
    assert_eq!(
        block,
        s1vm::tree::Block { kind: BlockKind::Block, depth: 0, eval: vec![Eval::Return(Some(diff))] }
    );
}

#[test]
fn function_keeps_name_type_and_locals() {
    let mut decl = func(2, true, 3, vec![GetLocal(0), End]);
    decl.name = "pick".to_string();
    let compiled = compile(vec![decl], 0).unwrap();
    assert_eq!(compiled.len(), 1);
    assert_eq!(compiled[0].name, "pick");
    assert_eq!(compiled[0].param_count(), 2);
    assert_eq!(compiled[0].ret_type(), Some(ValueType::I64));
    match &compiled[0].body {
        FunctionBody::Compiled(body) => {
            assert_eq!(body.local_types.len(), 3);
            // one slot for the operand that the body returns
            assert_eq!(body.operands, 1);
        },
        FunctionBody::Host(_) => panic!("host function"),
    }
}

#[test]
fn imported_function_becomes_a_host_function() {
    let mut import = func(1, false, 0, vec![]);
    import.is_imported = true;
    let compiled = compile(vec![func(0, false, 0, vec![End]), import], 0).unwrap();
    match &compiled[1].body {
        FunctionBody::Host(host) => {
            assert_eq!(host.mod_idx, 3);
            assert_eq!(host.func_idx, 1);
        },
        FunctionBody::Compiled(_) => panic!("compiled function"),
    }
}

#[test]
fn statements_keep_their_order() {
    let block = one(
        1,
        false,
        vec![I64Const(5), SetLocal(0), Nop, GetLocal(0), Drop, Return, Unreachable, Nop, End],
    );
    // what follows the return is dead and adds nothing
    assert_eq!(
        block.eval,
        vec![Eval::SetLocal(0, cell(5)), Eval::Drop(Input::Local(0)), Eval::Return(None)]
    );
    let block = one(0, false, vec![Unreachable, End]);
    assert_eq!(block.eval, vec![Eval::Trap(TrapKind::Unreachable)]);
    let block = one(0, false, vec![Nop, End]);
    assert_eq!(block.eval, vec![Eval::Return(None)]);
}

#[test]
fn blocks_nest_with_their_depth() {
    let block = one(
        1,
        false,
        vec![
            Loop(None),
            GetLocal(0),
            If(None),
            GetLocal(0),
            BrIf(1),
            Else,
            Nop,
            End,
            End,
            End,
        ],
    );
    let then_block = s1vm::tree::Block {
        kind: BlockKind::If,
        depth: 2,
        eval: vec![Eval::BrIf(Input::Local(0), 1)],
    };
    let else_block = s1vm::tree::Block { kind: BlockKind::Else, depth: 2, eval: vec![] };
    let loop_block = s1vm::tree::Block {
        kind: BlockKind::Loop,
        depth: 1,
        eval: vec![Eval::If(Input::Local(0), then_block, Some(else_block))],
    };
    assert_eq!(block.kind, BlockKind::Block);
    assert_eq!(block.depth(), 0);
    assert_eq!(block.eval, vec![Eval::Nested(loop_block), Eval::Return(None)]);
}

#[test]
fn call_takes_its_arguments_in_order() {
    let callee = func(3, true, 0, vec![GetLocal(0), End]);
    let quiet = func(1, false, 0, vec![End]);
    let caller = func(
        0,
        true,
        0,
        vec![I64Const(1), I64Const(2), I64Const(3), Call(0), I64Const(4), Call(1), End],
    );
    let compiled = compile(vec![callee, quiet, caller], 100).unwrap();
    let args = Args::Cons(
        cell(1),
        Box::new(Args::Cons(cell(2), Box::new(Args::Cons(cell(3), Box::new(Args::Nil))))),
    );
    let quiet_args = Args::Cons(cell(4), Box::new(Args::Nil));
    assert_eq!(
        body(&compiled[2]).eval,
        vec![
            // the first call is made before the statement that follows it
            Eval::SetLocal(0, op(Op::Call(100, args))),
            // a call without a result is a statement
            Eval::Drop(op(Op::Call(101, quiet_args))),
            Eval::Return(Some(Input::Local(0))),
        ]
    );
}

#[test]
fn tee_select_and_branch_table() {
    let block = one(
        3,
        true,
        vec![
            Block(None),
            GetLocal(0),
            TeeLocal(1),
            GetLocal(1),
            GetLocal(2),
            Select,
            I32Eqz,
            BrTable(vec![0, 0], 0),
            End,
            F64Const(7),
            End,
        ],
    );
    let tee = op(Op::Tee(1, Input::Local(0)));
    let select = op(Op::Select(tee, Input::Local(1), Input::Local(2)));
    let index = op(Op::Unary(UnOp::I32Eqz, select));
    let inner = s1vm::tree::Block {
        kind: BlockKind::Block,
        depth: 1,
        eval: vec![Eval::BrTable(index, vec![0, 0], 0)],
    };
    assert_eq!(
        block.eval,
        vec![Eval::Nested(inner), Eval::Return(Some(Input::Const(StackValue(7))))]
    );
}

#[test]
fn pending_operands_are_written_to_their_slots() {
    // two parameters and one declared local: the slots start at local 3
    let block = one_with_locals(
        2,
        1,
        vec![
            GetLocal(0),
            GetLocal(1),
            I64Const(5),
            SetLocal(0),
            I64Add,
            SetLocal(2),
            GetLocal(2),
            End,
        ],
    );
    let sum = op(Op::Binary(BinOp::I64Add, Input::Local(3), Input::Local(4)));
    assert_eq!(
        block.eval,
        vec![
            Eval::SetLocal(3, Input::Local(0)),
            Eval::SetLocal(4, Input::Local(1)),
            Eval::SetLocal(0, cell(5)),
            Eval::SetLocal(2, sum),
            Eval::Return(Some(Input::Local(2))),
        ]
    );
}

#[test]
fn block_hands_its_result_over_in_a_slot() {
    let block = one(
        1,
        true,
        vec![
            I64Const(100),
            GetLocal(0),
            If(Some(ValueType::I64)),
            I64Const(1),
            Else,
            I64Const(2),
            End,
            I64Add,
            End,
        ],
    );
    // the slots start at local 1: the constant goes to slot 0, the result to slot 1
    let then_block =
        s1vm::tree::Block { kind: BlockKind::If, depth: 1, eval: vec![Eval::SetLocal(2, cell(1))] };
    let else_block =
        s1vm::tree::Block { kind: BlockKind::Else, depth: 1, eval: vec![Eval::SetLocal(2, cell(2))] };
    let sum = op(Op::Binary(BinOp::I64Add, Input::Local(1), Input::Local(2)));
    assert_eq!(
        block.eval,
        vec![
            Eval::SetLocal(1, cell(100)),
            Eval::If(Input::Local(0), then_block, Some(else_block)),
            Eval::Return(Some(sum)),
        ]
    );
}

#[test]
fn branch_carries_its_value_to_the_slot_of_its_target() {
    let block = one(
        1,
        true,
        vec![
            Block(Some(ValueType::I64)),
            I64Const(10),
            GetLocal(0),
            Br(0),
            End,
            End,
        ],
    );
    let inner = s1vm::tree::Block {
        kind: BlockKind::Block,
        depth: 1,
        eval: vec![
            Eval::SetLocal(1, cell(10)),
            Eval::SetLocal(1, Input::Local(0)),
            Eval::Br(0),
        ],
    };
    assert_eq!(block.eval, vec![Eval::Nested(inner), Eval::Return(Some(Input::Local(1)))]);
}

#[test]
fn operations_outside_the_kernels_become_traps() {
    let block = one(
        0,
        true,
        vec![
            I32Const(0),
            I32Const(1),
            I32Store(2, 0),
            I32Const(0),
            I32Load(2, 0),
            SetGlobal(0),
            GetGlobal(0),
            F64Const(0),
            F32Add,
            End,
        ],
    );
    // the operands are evaluated before the trap, as the source program does
    assert_eq!(
        block.eval,
        vec![
            Eval::SetLocal(0, cell(0)),
            Eval::SetLocal(1, cell(1)),
            Eval::Trap(TrapKind::NotImplemented),
            Eval::SetLocal(0, cell(0)),
            Eval::Trap(TrapKind::NotImplemented),
            Eval::Trap(TrapKind::NotImplemented),
            Eval::Trap(TrapKind::NotImplemented),
            Eval::SetLocal(1, cell(0)),
            Eval::Trap(TrapKind::NotImplemented),
            Eval::Return(Some(Input::Local(0))),
        ]
    );
}

#[test]
fn indirect_call_uses_the_type_table() {
    let module = DecodedModule {
        types: vec![
            FunctionType { params: vec![ValueType::I64; 2], ret_type: Some(ValueType::I64) },
            FunctionType { params: vec![], ret_type: None },
        ],
        functions: vec![func(
            0,
            true,
            0,
            vec![
                I32Const(0),
                CallIndirect(1, 0),
                I64Const(7),
                I64Const(1),
                I64Const(2),
                I32Const(0),
                CallIndirect(0, 0),
                Drop,
                End,
            ],
        )],
        exports: vec![],
    };
    let compiled = Compiler::new(&module, 0, 0).compile().unwrap();
    assert_eq!(
        body(&compiled[0]).eval,
        vec![
            Eval::SetLocal(0, cell(0)),
            Eval::Trap(TrapKind::NotImplemented),
            Eval::SetLocal(0, cell(7)),
            Eval::SetLocal(1, cell(1)),
            Eval::SetLocal(2, cell(2)),
            Eval::SetLocal(3, cell(0)),
            Eval::Trap(TrapKind::NotImplemented),
            Eval::Drop(Input::Local(1)),
            Eval::Return(Some(Input::Local(0))),
        ]
    );
    let bad = DecodedModule {
        types: vec![],
        functions: vec![func(0, false, 0, vec![I32Const(0), CallIndirect(0, 0), End])],
        exports: vec![],
    };
    assert!(matches!(
        Compiler::new(&bad, 0, 0).compile(),
        Err(Error::ValidationError(_))
    ));
}

#[test]
fn dead_code_is_read_for_its_blocks_only() {
    let block = one(0, true, vec![I64Const(1), Return, End]);
    assert_eq!(block.eval, vec![Eval::Return(Some(cell(1)))]);
    // operators without operands are valid behind a branch
    let block = one(
        0,
        true,
        vec![I64Const(1), Return, I64Add, Drop, Loop(None), I64Sub, End, If(None), End, End],
    );
    let dead_loop = s1vm::tree::Block { kind: BlockKind::Loop, depth: 1, eval: vec![] };
    let dead_if = s1vm::tree::Block { kind: BlockKind::If, depth: 1, eval: vec![] };
    assert_eq!(
        block.eval,
        vec![
            Eval::Return(Some(cell(1))),
            Eval::Nested(dead_loop),
            Eval::If(cell(0), dead_if, None),
        ]
    );
}

#[test]
fn invalid_code_is_refused() {
    assert!(is_invalid(vec![]));
    assert!(is_invalid(vec![GetLocal(0)]));
    assert!(is_invalid(vec![I64Add, End]));
    assert!(is_invalid(vec![GetLocal(0), I64Add, End]));
    assert!(is_invalid(vec![Drop, End]));
    assert!(is_invalid(vec![SetLocal(0), End]));
    assert!(is_invalid(vec![TeeLocal(0), End]));
    assert!(is_invalid(vec![BrIf(0), End]));
    assert!(is_invalid(vec![If(None), End, End]));
    assert!(is_invalid(vec![Else, End]));
    assert!(is_invalid(vec![Loop(None), Else, End, End]));
    assert!(is_invalid(vec![Loop(None), End]));
    assert!(is_invalid(vec![End, End]));
    assert!(is_invalid(vec![GetLocal(0), End, Nop]));
    assert!(is_invalid(vec![Call(9), End]));
    assert!(is_invalid(vec![Call(0), End]));
    assert!(is_invalid(vec![GetLocal(0), GetLocal(0), Select, End]));
    // a local that the function does not have
    assert!(is_invalid(vec![GetLocal(1), End]));
    assert!(is_invalid(vec![GetLocal(0), SetLocal(7), GetLocal(0), End]));
    // a block must leave exactly its result
    assert!(is_invalid(vec![GetLocal(0), GetLocal(0), End]));
    assert!(is_invalid(vec![Block(None), GetLocal(0), End, GetLocal(0), End]));
    assert!(is_invalid(vec![Block(Some(ValueType::I64)), End, End]));
    // a block cannot take operands from below its start
    assert!(is_invalid(vec![GetLocal(0), GetLocal(0), Block(None), Drop, End, End]));
    // an if with a result needs both arms
    assert!(is_invalid(vec![GetLocal(0), If(Some(ValueType::I64)), GetLocal(0), End, End]));
    // a branch that leaves more blocks than are open
    assert!(is_invalid(vec![Br(1), End]));
    assert!(is_invalid(vec![GetLocal(0), BrTable(vec![0, 9], 0), End]));
    // a branch table that carries a value
    assert!(is_invalid(vec![GetLocal(0), GetLocal(0), BrTable(vec![0], 0), End]));
    assert!(!is_invalid(vec![GetLocal(0), End]));
    assert!(!is_invalid(vec![GetLocal(0), Br(0), End]));
}

#[test]
fn function_address_must_fit() {
    let callee = func(0, false, 0, vec![End]);
    let caller = func(0, false, 0, vec![Call(1), End]);
    assert!(compile(vec![callee, caller], u32::MAX - 1).is_ok());
    let callee = func(0, false, 0, vec![End]);
    let caller = func(0, false, 0, vec![Call(1), End]);
    assert!(matches!(
        compile(vec![callee, caller], u32::MAX),
        Err(Error::ValidationError(_))
    ));
}

#[test]
fn function_that_only_calls_itself() {
    let block = one(1, true, vec![GetLocal(0), Call(0), End]);
    let args = Args::Cons(Input::Local(0), Box::new(Args::Nil));
    assert_eq!(block.eval, vec![Eval::Return(Some(op(Op::Call(0, args))))]);
}

#[test]
fn nesting_is_bounded() {
    let nested = |depth: usize| {
        let mut code = vec![];
        for _ in 0..depth {
            code.push(Loop(None));
        }
        for _ in 0..depth {
            code.push(End);
        }
        code.push(End);
        module(vec![func(0, false, 0, code)])
    };
    assert_eq!(DEFAULT_MAX_DEPTH, 1024);
    // the block of the function itself counts
    assert!(Compiler::new(&nested(3), 0, 0).with_max_depth(4).compile().is_ok());
    assert!(matches!(
        Compiler::new(&nested(4), 0, 0).with_max_depth(4).compile(),
        Err(Error::ValidationError(_))
    ));
    assert!(Compiler::new(&nested(1023), 0, 0).compile().is_ok());
    assert!(Compiler::new(&nested(1024), 0, 0).compile().is_err());
    assert!(Compiler::new(&nested(0), 0, 0).with_max_depth(0).compile().is_err());
}

#[test]
fn operand_stack_of_the_translator() {
    let mut state = State::new();
    assert_eq!(state.depth, 0);
    assert_eq!(state.pc, 0);
    assert!(matches!(state.pop(), Err(Error::ValidationError(_))));
    state.push(Input::Local(1));
    state.push(cell(2));
    assert_eq!(state.pop(), Ok(cell(2)));
    assert_eq!(state.pop(), Ok(Input::Local(1)));
    assert!(state.pop().is_err());
}

#[test]
fn blocks_collect_statements() {
    let mut block = s1vm::tree::Block::new(BlockKind::Loop, 2);
    assert_eq!(block.depth(), 2);
    block.push(Eval::Br(0));
    block.push(Eval::Return(None));
    assert_eq!(block.eval, vec![Eval::Br(0), Eval::Return(None)]);
}

#[test]
fn instructions_have_shapes() {
    assert!(matches!(classify(&I64Add), Shape::Binary(BinOp::I64Add)));
    assert!(matches!(classify(&I32Eqz), Shape::Unary(UnOp::I32Eqz)));
    assert!(matches!(classify(&I32Const(-1)), Shape::Const(StackValue(u64::MAX))));
    assert!(matches!(classify(&F64Const(5)), Shape::Const(StackValue(5))));
    assert!(matches!(classify(&I32Load(0, 0)), Shape::Value(1)));
    assert!(matches!(classify(&I32Store(0, 0)), Shape::Effect(2)));
    assert!(matches!(classify(&F32Add), Shape::Value(2)));
    assert!(matches!(classify(&GetGlobal(0)), Shape::Value(0)));
    assert!(matches!(classify(&End), Shape::Special));
}
