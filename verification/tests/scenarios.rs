use s1vm::OpCode::{
    Block, Br, BrIf, BrTable, Call, Drop, Else, End, F64Add, F64Const, GetGlobal, GetLocal,
    GrowMemory, I32Add, I32Const, I32Eqz, I32RemS, I32Shl, I64Add, I64And, I64Const, I64DivS,
    I64Eqz, I64ExtendUI32, I64Load, I64LtS, I64Mul, I64Ne, I64ReinterpretF64, I64Store, I64Sub,
    I64Xor,
    If, Loop, Return, Select, SetLocal, TeeLocal, Unreachable,
};
use s1vm::{
    DecodedFunction, DecodedModule, Error, Export, FunctionType, OpCode, TrapKind, Value,
    ValueType, VM,
};

fn func(name: &str, params: usize, result: bool, locals: usize, code: Vec<OpCode>) -> DecodedFunction {
    DecodedFunction {
        name: name.to_string(),
        func_type: FunctionType {
            params: vec![ValueType::I64; params],
            ret_type: if result { Some(ValueType::I64) } else { None },
        },
        is_imported: false,
        locals: vec![ValueType::I64; locals],
        code,
    }
}

fn module(functions: Vec<DecodedFunction>) -> DecodedModule {
    let exports = functions
        .iter()
        .enumerate()
        .map(|(idx, f)| Export { field: f.name.clone(), func_idx: idx as u32 })
        .collect();
    DecodedModule { types: vec![], functions, exports }
}

fn inner() -> DecodedFunction {
    func(
        "inner",
        5,
        true,
        0,
        vec![
            GetLocal(0),
            GetLocal(1),
            I64Add,
            GetLocal(2),
            I64Add,
            GetLocal(3),
            I64Add,
            GetLocal(4),
            I64Add,
            End,
        ],
    )
}

fn for_loop() -> DecodedFunction {
    let mut code = vec![
        Block(None),
        Loop(None),
        // leave when !(i < n)
        GetLocal(1),
        GetLocal(0),
        I64LtS,
        I32Eqz,
        BrIf(1),
        // inner(i, n + 1, n + 2, n + 3, n + 4)
        GetLocal(1),
    ];
    for k in 1..5 {
        code.extend([GetLocal(0), I64Const(k), I64Add]);
    }
    code.extend([
        Call(0),
        I64Eqz,
        If(None),
        I64Const(0),
        Return,
        End,
        // i += 1
        GetLocal(1),
        I64Const(1),
        I64Add,
        SetLocal(1),
        Br(0),
        End,
        End,
        GetLocal(0),
        End,
    ]);
    func("for_loop", 1, true, 1, code)
}

// The two functions as plain code, to hold the machine against.
fn inner_func(a: i64, b: i64, c: i64, d: i64, e: i64) -> i64 {
    a.wrapping_add(b).wrapping_add(c).wrapping_add(d).wrapping_add(e)
}

fn do_for_loop(count: i64, b: i64, c: i64, d: i64, e: i64) -> i64 {
    let mut idx = 0;
    while idx < count {
        if inner_func(idx, b, c, d, e) == 0 {
            return 0;
        }
        idx += 1;
    }
    count
}

fn machine(functions: Vec<DecodedFunction>) -> VM {
    let mut vm = VM::new();
    vm.load_module("main", &module(functions)).unwrap();
    vm
}

fn call(vm: &mut VM, name: &str, params: &[i64]) -> Result<Option<Value>, Error> {
    let params: Vec<Value> = params.iter().map(|v| Value::I64(*v)).collect();
    vm.spawn().call("main", name, &params)
}

#[test]
fn sum_of_five_arguments() {
    let mut vm = machine(vec![inner()]);
    assert_eq!(call(&mut vm, "inner", &[1, 2, 3, 4, 5]), Ok(Some(Value::I64(15))));
    assert_eq!(call(&mut vm, "inner", &[i64::MAX, 1, 0, 0, 0]), Ok(Some(Value::I64(i64::MIN))));
    assert_eq!(call(&mut vm, "inner", &[-1, -2, -3, -4, -5]), Ok(Some(Value::I64(-15))));
}

#[test]
fn bounded_loop_with_early_exit() {
    let mut vm = machine(vec![inner(), for_loop()]);
    assert_eq!(call(&mut vm, "for_loop", &[3]), Ok(Some(Value::I64(3))));
    assert_eq!(call(&mut vm, "for_loop", &[0]), Ok(Some(Value::I64(0))));
    assert_eq!(call(&mut vm, "for_loop", &[1000]), Ok(Some(Value::I64(1000))));
    // no iteration for a negative bound
    assert_eq!(call(&mut vm, "for_loop", &[-4]), Ok(Some(Value::I64(-4))));
}

#[test]
fn machine_agrees_with_plain_code() {
    let mut vm = machine(vec![inner(), for_loop()]);
    for n in [0i64, 1, 2, 3, 7, 64, 500, -1, -10] {
        let plain = do_for_loop(n, n + 1, n + 2, n + 3, n + 4);
        assert_eq!(call(&mut vm, "for_loop", &[n]), Ok(Some(Value::I64(plain))));
    }
    for args in [[1i64, 2, 3, 4, 5], [0, 0, 0, 0, 0], [i64::MAX, i64::MAX, 2, 0, -1], [-3, 3, 0, 0, 0]] {
        let plain = inner_func(args[0], args[1], args[2], args[3], args[4]);
        assert_eq!(call(&mut vm, "inner", &args), Ok(Some(Value::I64(plain))));
    }
}

#[test]
fn loop_leaves_early_when_inner_gives_zero() {
    // the callee always returns zero, so the first round returns 0
    let zero = func("inner", 5, true, 0, vec![I64Const(0), End]);
    let mut vm = machine(vec![zero, for_loop()]);
    assert_eq!(call(&mut vm, "for_loop", &[3]), Ok(Some(Value::I64(0))));
    assert_eq!(call(&mut vm, "for_loop", &[0]), Ok(Some(Value::I64(0))));
}

#[test]
fn division_trap() {
    let divmod = func("divmod", 2, true, 0, vec![GetLocal(0), GetLocal(1), I64DivS, End]);
    let mut vm = machine(vec![divmod]);
    assert_eq!(call(&mut vm, "divmod", &[10, 3]), Ok(Some(Value::I64(3))));
    assert_eq!(call(&mut vm, "divmod", &[-10, 3]), Ok(Some(Value::I64(-3))));
    assert_eq!(
        call(&mut vm, "divmod", &[10, 0]),
        Err(Error::RuntimeError(TrapKind::DivisionByZero))
    );
    assert_eq!(
        call(&mut vm, "divmod", &[i64::MIN, -1]),
        Err(Error::RuntimeError(TrapKind::InvalidConversionToInt))
    );
}

#[test]
fn if_else_parity() {
    let parity = func(
        "parity",
        1,
        true,
        0,
        vec![
            GetLocal(0),
            I64Const(1),
            I64And,
            I64Const(0),
            I64Ne,
            If(Some(ValueType::I64)),
            I64Const(1),
            Else,
            I64Const(0),
            End,
            End,
        ],
    );
    // the same with a return in each arm
    let early = func(
        "early",
        1,
        true,
        0,
        vec![
            GetLocal(0),
            I64Const(1),
            I64And,
            If(None),
            I64Const(1),
            Return,
            Else,
            I64Const(0),
            Return,
            End,
            Unreachable,
            End,
        ],
    );
    let mut vm = machine(vec![parity, early]);
    for name in ["parity", "early"] {
        assert_eq!(call(&mut vm, name, &[42]), Ok(Some(Value::I64(0))));
        assert_eq!(call(&mut vm, name, &[43]), Ok(Some(Value::I64(1))));
        assert_eq!(call(&mut vm, name, &[-1]), Ok(Some(Value::I64(1))));
        assert_eq!(call(&mut vm, name, &[0]), Ok(Some(Value::I64(0))));
    }
}

#[test]
fn operand_keeps_the_value_it_had_when_it_was_pushed() {
    // the local is read before it is written
    let read_first =
        func("read_first", 1, true, 0, vec![GetLocal(0), I64Const(5), SetLocal(0), Return, End]);
    // the same with the write inside an expression
    let tee_later = func(
        "tee_later",
        2,
        true,
        0,
        vec![
            GetLocal(0),
            I64Const(7),
            TeeLocal(0),
            SetLocal(1),
            GetLocal(0),
            I64Add,
            GetLocal(1),
            I64Add,
            End,
        ],
    );
    // a write inside a block that the operand waits behind
    let across = func(
        "across",
        1,
        true,
        0,
        vec![
            GetLocal(0),
            Block(None),
            I64Const(50),
            SetLocal(0),
            End,
            GetLocal(0),
            I64Sub,
            End,
        ],
    );
    let mut vm = machine(vec![read_first, tee_later, across]);
    assert_eq!(call(&mut vm, "read_first", &[1]), Ok(Some(Value::I64(1))));
    // old x + new x + new y = 1 + 7 + 7
    assert_eq!(call(&mut vm, "tee_later", &[1, 2]), Ok(Some(Value::I64(15))));
    assert_eq!(call(&mut vm, "across", &[8]), Ok(Some(Value::I64(8 - 50))));
}

#[test]
fn call_is_made_before_the_statement_that_follows_it() {
    let fails = func("fails", 0, true, 0, vec![I64Const(1), I64Const(0), I64DivS, End]);
    let first = func("first", 0, true, 0, vec![Call(0), Unreachable, End]);
    let dropped = func("dropped", 0, true, 0, vec![Call(0), I64Const(3), Return, End]);
    let mut vm = machine(vec![fails, first, dropped]);
    assert_eq!(
        call(&mut vm, "first", &[]),
        Err(Error::RuntimeError(TrapKind::DivisionByZero))
    );
    assert_eq!(
        call(&mut vm, "dropped", &[]),
        Err(Error::RuntimeError(TrapKind::DivisionByZero))
    );
}

#[test]
fn blocks_and_loops_yield_values() {
    let plain = func(
        "plain",
        1,
        true,
        0,
        vec![
            Block(Some(ValueType::I64)),
            GetLocal(0),
            I64Const(1),
            I64Add,
            End,
            Loop(Some(ValueType::I64)),
            I64Const(2),
            End,
            I64Mul,
            End,
        ],
    );
    let nested = func(
        "nested",
        1,
        true,
        0,
        vec![
            I64Const(100),
            GetLocal(0),
            If(Some(ValueType::I64)),
            GetLocal(0),
            I64Const(0),
            I64LtS,
            If(Some(ValueType::I64)),
            I64Const(-1),
            Else,
            I64Const(1),
            End,
            Else,
            I64Const(0),
            End,
            I64Add,
            End,
        ],
    );
    let mut vm = machine(vec![plain, nested]);
    assert_eq!(call(&mut vm, "plain", &[4]), Ok(Some(Value::I64(10))));
    assert_eq!(call(&mut vm, "nested", &[5]), Ok(Some(Value::I64(101))));
    assert_eq!(call(&mut vm, "nested", &[-5]), Ok(Some(Value::I64(99))));
    assert_eq!(call(&mut vm, "nested", &[0]), Ok(Some(Value::I64(100))));
}

#[test]
fn branches_carry_values() {
    // the branch leaves the operand below its value behind
    let leave = func(
        "leave",
        1,
        true,
        0,
        vec![
            Block(Some(ValueType::I64)),
            I64Const(10),
            GetLocal(0),
            Br(0),
            End,
            I64Const(1),
            I64Add,
            End,
        ],
    );
    // taken: x; not taken: 5 + x
    let maybe = func(
        "maybe",
        2,
        true,
        0,
        vec![
            Block(Some(ValueType::I64)),
            I64Const(5),
            GetLocal(0),
            GetLocal(1),
            BrIf(0),
            I64Add,
            End,
            End,
        ],
    );
    // a branch to the block of the function returns its value
    let out = func(
        "out",
        2,
        true,
        0,
        vec![
            Block(None),
            GetLocal(0),
            GetLocal(1),
            BrIf(1),
            I64Const(2),
            I64Mul,
            Br(1),
            End,
            Unreachable,
            End,
        ],
    );
    // two levels out of an if inside a block
    let deep = func(
        "deep",
        1,
        true,
        0,
        vec![
            Block(Some(ValueType::I64)),
            GetLocal(0),
            If(None),
            I64Const(7),
            Br(1),
            End,
            I64Const(8),
            End,
            End,
        ],
    );
    let mut vm = machine(vec![leave, maybe, out, deep]);
    assert_eq!(call(&mut vm, "leave", &[4]), Ok(Some(Value::I64(5))));
    assert_eq!(call(&mut vm, "maybe", &[4, 1]), Ok(Some(Value::I64(4))));
    assert_eq!(call(&mut vm, "maybe", &[4, 0]), Ok(Some(Value::I64(9))));
    assert_eq!(call(&mut vm, "out", &[4, 1]), Ok(Some(Value::I64(4))));
    assert_eq!(call(&mut vm, "out", &[4, 0]), Ok(Some(Value::I64(8))));
    assert_eq!(call(&mut vm, "deep", &[1]), Ok(Some(Value::I64(7))));
    assert_eq!(call(&mut vm, "deep", &[0]), Ok(Some(Value::I64(8))));
}

#[test]
fn if_without_else_is_skipped_on_zero() {
    let clamp = func(
        "clamp",
        1,
        true,
        0,
        vec![
            GetLocal(0),
            I64Const(0),
            I64LtS,
            If(None),
            I64Const(0),
            SetLocal(0),
            End,
            GetLocal(0),
            End,
        ],
    );
    let mut vm = machine(vec![clamp]);
    assert_eq!(call(&mut vm, "clamp", &[5]), Ok(Some(Value::I64(5))));
    assert_eq!(call(&mut vm, "clamp", &[-5]), Ok(Some(Value::I64(0))));
}

#[test]
fn nested_block_branch() {
    let skip = func(
        "skip",
        1,
        true,
        0,
        vec![
            Block(None),
            Block(None),
            Br(1),
            End,
            // skipped
            GetLocal(0),
            I64Const(100),
            I64Add,
            SetLocal(0),
            End,
            // resumed
            GetLocal(0),
            I64Const(1),
            I64Add,
            End,
        ],
    );
    let inner_only = func(
        "inner_only",
        1,
        true,
        0,
        vec![
            Block(None),
            Block(None),
            Br(0),
            // skipped
            I64Const(1000),
            SetLocal(0),
            End,
            // resumed in the outer block
            GetLocal(0),
            I64Const(100),
            I64Add,
            SetLocal(0),
            End,
            GetLocal(0),
            I64Const(1),
            I64Add,
            End,
        ],
    );
    let mut vm = machine(vec![skip, inner_only]);
    assert_eq!(call(&mut vm, "skip", &[7]), Ok(Some(Value::I64(8))));
    assert_eq!(call(&mut vm, "inner_only", &[7]), Ok(Some(Value::I64(108))));
}

#[test]
fn branch_to_a_loop_restarts_it() {
    // count down to zero and count the rounds in local 1
    let count = func(
        "count",
        1,
        true,
        1,
        vec![
            Loop(None),
            GetLocal(0),
            I64Eqz,
            If(None),
            GetLocal(1),
            Return,
            End,
            GetLocal(0),
            I64Const(1),
            I64Sub,
            SetLocal(0),
            GetLocal(1),
            I64Const(1),
            I64Add,
            SetLocal(1),
            Br(0),
            End,
            I64Const(-1),
            End,
        ],
    );
    let mut vm = machine(vec![count]);
    assert_eq!(call(&mut vm, "count", &[0]), Ok(Some(Value::I64(0))));
    assert_eq!(call(&mut vm, "count", &[5]), Ok(Some(Value::I64(5))));
    assert_eq!(call(&mut vm, "count", &[100_000]), Ok(Some(Value::I64(100_000))));
}

#[test]
fn branch_out_of_an_if_in_a_loop() {
    // br 1 from inside the if reaches the loop and restarts it;
    // br 2 reaches the block around the loop and leaves both
    let code = vec![
        Block(None),
        Loop(None),
        GetLocal(0),
        I64Const(1),
        I64Add,
        SetLocal(0),
        GetLocal(0),
        I64Const(10),
        I64LtS,
        If(None),
        Br(1),
        Else,
        Br(2),
        End,
        I64Const(-1),
        SetLocal(0),
        End,
        I64Const(-2),
        SetLocal(0),
        End,
        GetLocal(0),
        End,
    ];
    let mut vm = machine(vec![func("climb", 1, true, 0, code)]);
    assert_eq!(call(&mut vm, "climb", &[0]), Ok(Some(Value::I64(10))));
    assert_eq!(call(&mut vm, "climb", &[50]), Ok(Some(Value::I64(51))));
}

#[test]
fn branch_table_selects_by_index() {
    let code = vec![
        Block(None),
        Block(None),
        Block(None),
        GetLocal(0),
        BrTable(vec![0, 1], 2),
        End,
        I64Const(10),
        Return,
        End,
        I64Const(20),
        Return,
        End,
        I64Const(30),
        End,
    ];
    let mut vm = machine(vec![func("pick", 1, true, 0, code)]);
    assert_eq!(call(&mut vm, "pick", &[0]), Ok(Some(Value::I64(10))));
    assert_eq!(call(&mut vm, "pick", &[1]), Ok(Some(Value::I64(20))));
    assert_eq!(call(&mut vm, "pick", &[2]), Ok(Some(Value::I64(30))));
    assert_eq!(call(&mut vm, "pick", &[77]), Ok(Some(Value::I64(30))));
    // the index is read as an unsigned 32-bit number
    assert_eq!(call(&mut vm, "pick", &[-1]), Ok(Some(Value::I64(30))));
    assert_eq!(call(&mut vm, "pick", &[1 << 32]), Ok(Some(Value::I64(10))));
}

#[test]
fn stack_overflow_on_endless_recursion() {
    let forever = func("forever", 0, false, 0, vec![Call(0), End]);
    let deeper = func("deeper", 1, true, 2, vec![GetLocal(0), Call(1), End]);
    let mut vm = machine(vec![forever, deeper]);
    assert_eq!(
        call(&mut vm, "forever", &[]),
        Err(Error::RuntimeError(TrapKind::StackOverflow))
    );
    assert_eq!(
        call(&mut vm, "deeper", &[1]),
        Err(Error::RuntimeError(TrapKind::StackOverflow))
    );
    // a small stack runs out of cells long before the depth is reached
    let mut small = vm.spawn_with_limits(64, 1_000_000);
    assert_eq!(
        small.call("main", "deeper", &[Value::I64(1)]),
        Err(Error::RuntimeError(TrapKind::StackOverflow))
    );
    // a small depth runs out although the stack has room
    let mut shallow = vm.spawn_with_limits(1 << 20, 16);
    assert_eq!(
        shallow.call("main", "forever", &[]),
        Err(Error::RuntimeError(TrapKind::StackOverflow))
    );
}

#[test]
fn depth_limit_bounds_nesting() {
    let id = func("id", 1, true, 0, vec![GetLocal(0), End]);
    let mut vm = machine(vec![id]);
    // the call needs one level for the function and one for its block
    let mut none = vm.spawn_with_limits(1024, 0);
    assert_eq!(
        none.call("main", "id", &[Value::I64(1)]),
        Err(Error::RuntimeError(TrapKind::StackOverflow))
    );
    let mut enough = vm.spawn_with_limits(1024, 1);
    assert_eq!(enough.call("main", "id", &[Value::I64(1)]), Ok(Some(Value::I64(1))));
    // one cell for the argument and one for the operand
    let mut tight = vm.spawn_with_limits(2, 8);
    assert_eq!(tight.call("main", "id", &[Value::I64(1)]), Ok(Some(Value::I64(1))));
    let mut full = vm.spawn_with_limits(1, 8);
    assert_eq!(
        full.call("main", "id", &[Value::I64(1)]),
        Err(Error::RuntimeError(TrapKind::StackOverflow))
    );
}

#[test]
fn instance_can_be_called_again_after_any_outcome() {
    let divmod = func("divmod", 2, true, 0, vec![GetLocal(0), GetLocal(1), I64DivS, End]);
    let mut vm = machine(vec![inner(), for_loop(), divmod]);
    let mut inst = vm.spawn_with_limits(16, 64);
    for _ in 0..100 {
        assert_eq!(
            inst.call("main", "divmod", &[Value::I64(1), Value::I64(0)]),
            Err(Error::RuntimeError(TrapKind::DivisionByZero))
        );
        assert_eq!(
            inst.call("main", "for_loop", &[Value::I64(3)]),
            Ok(Some(Value::I64(3)))
        );
        assert_eq!(
            inst.call(
                "main",
                "inner",
                &[Value::I64(1), Value::I64(2), Value::I64(3), Value::I64(4), Value::I64(5)]
            ),
            Ok(Some(Value::I64(15)))
        );
    }
}

#[test]
fn callee_does_not_touch_the_locals_of_its_caller() {
    // the callee overwrites all of its locals
    let scribble = func(
        "scribble",
        2,
        true,
        2,
        vec![
            I64Const(-1),
            SetLocal(0),
            I64Const(-2),
            SetLocal(1),
            I64Const(-3),
            SetLocal(2),
            I64Const(-4),
            TeeLocal(3),
            End,
        ],
    );
    // the caller keeps values in its own locals across the call
    let caller = func(
        "caller",
        2,
        true,
        1,
        vec![
            I64Const(500),
            SetLocal(2),
            GetLocal(0),
            GetLocal(1),
            Call(0),
            Drop,
            GetLocal(0),
            GetLocal(1),
            I64Add,
            GetLocal(2),
            I64Add,
            End,
        ],
    );
    let mut vm = machine(vec![scribble, caller]);
    assert_eq!(call(&mut vm, "scribble", &[1, 2]), Ok(Some(Value::I64(-4))));
    assert_eq!(call(&mut vm, "caller", &[10, 20]), Ok(Some(Value::I64(530))));
}

#[test]
fn local_zero_behaves_like_any_other_local() {
    // the same computation once on local 0 and once on local 1
    let body = |a: u32, b: u32| {
        vec![
            GetLocal(a),
            I64Const(3),
            I64Mul,
            TeeLocal(a),
            GetLocal(b),
            I64Sub,
            SetLocal(a),
            GetLocal(a),
            GetLocal(a),
            I64Xor,
            GetLocal(a),
            I64Add,
            End,
        ]
    };
    let on_zero = func("on_zero", 2, true, 0, body(0, 1));
    let on_one = func("on_one", 2, true, 0, body(1, 0));
    let mut vm = machine(vec![on_zero, on_one]);
    for (x, y) in [(0, 0), (1, 2), (-7, 9), (i64::MAX, i64::MIN), (12345, -54321)] {
        let fast = call(&mut vm, "on_zero", &[x, y]);
        let slow = call(&mut vm, "on_one", &[y, x]);
        assert_eq!(fast, slow);
        assert_eq!(fast, Ok(Some(Value::I64(x.wrapping_mul(3).wrapping_sub(y)))));
    }
}

#[test]
fn function_without_result_returns_nothing() {
    let nothing = func("nothing", 1, false, 0, vec![GetLocal(0), Drop, End]);
    let early = func("early", 0, false, 0, vec![Return, End]);
    let calls = func("calls", 0, true, 0, vec![I64Const(3), Call(0), I64Const(4), End]);
    let mut vm = machine(vec![nothing, early, calls]);
    assert_eq!(call(&mut vm, "nothing", &[9]), Ok(None));
    assert_eq!(call(&mut vm, "early", &[]), Ok(None));
    assert_eq!(call(&mut vm, "calls", &[]), Ok(Some(Value::I64(4))));
}

#[test]
fn result_is_read_at_the_declared_type() {
    let mut narrow = func("narrow", 1, true, 0, vec![GetLocal(0), End]);
    narrow.func_type.ret_type = Some(ValueType::I32);
    let mut float = func("float", 1, true, 0, vec![GetLocal(0), End]);
    float.func_type.ret_type = Some(ValueType::F32);
    let mut wide = func("wide", 0, true, 0, vec![F64Const(2.5f64.to_bits()), End]);
    wide.func_type.ret_type = Some(ValueType::F64);
    let mut vm = machine(vec![narrow, float, wide]);
    assert_eq!(call(&mut vm, "narrow", &[0x1_0000_0005]), Ok(Some(Value::I32(5))));
    assert_eq!(call(&mut vm, "narrow", &[-1]), Ok(Some(Value::I32(-1))));
    assert_eq!(
        call(&mut vm, "float", &[1.5f32.to_bits() as i64]),
        Ok(Some(Value::F32(1.5f32.to_bits())))
    );
    assert_eq!(call(&mut vm, "wide", &[]), Ok(Some(Value::F64(2.5f64.to_bits()))));
}

#[test]
fn select_tee_and_unreachable() {
    let choose =
        func("choose", 3, true, 0, vec![GetLocal(0), GetLocal(1), GetLocal(2), Select, End]);
    let dead = func("dead", 0, true, 0, vec![Unreachable, I64Const(1), End]);
    let tee = func(
        "tee",
        1,
        true,
        1,
        vec![GetLocal(0), I64Const(2), I64Mul, TeeLocal(1), GetLocal(1), I64Add, End],
    );
    let mut vm = machine(vec![choose, dead, tee]);
    assert_eq!(call(&mut vm, "choose", &[10, 20, 1]), Ok(Some(Value::I64(10))));
    assert_eq!(call(&mut vm, "choose", &[10, 20, 0]), Ok(Some(Value::I64(20))));
    assert_eq!(call(&mut vm, "dead", &[]), Err(Error::RuntimeError(TrapKind::Unreachable)));
    assert_eq!(call(&mut vm, "tee", &[5]), Ok(Some(Value::I64(20))));
}

#[test]
fn memory_and_float_operations_are_not_implemented() {
    let load = func("load", 0, true, 0, vec![I32Const(0), I64Load(3, 0), End]);
    let store = func("store", 0, false, 0, vec![I32Const(0), I64Const(1), I64Store(3, 0), End]);
    let global = func("global", 0, true, 0, vec![GetGlobal(0), End]);
    let float =
        func("float", 0, true, 0, vec![F64Const(0), F64Const(0), F64Add, I64ReinterpretF64, End]);
    let grow = func("grow", 0, true, 0, vec![I32Const(1), GrowMemory(0), I64ExtendUI32, End]);
    let mut vm = machine(vec![load, store, global, float, grow]);
    for name in ["load", "store", "global", "float", "grow"] {
        assert_eq!(
            call(&mut vm, name, &[]),
            Err(Error::RuntimeError(TrapKind::NotImplemented)),
            "{}",
            name
        );
    }
}

#[test]
fn imported_function_is_not_implemented() {
    let mut host = func("env.print", 1, false, 0, vec![]);
    host.is_imported = true;
    let caller = func("caller", 0, true, 0, vec![I64Const(1), Call(0), I64Const(2), End]);
    let mut vm = machine(vec![host, caller]);
    assert_eq!(
        call(&mut vm, "caller", &[]),
        Err(Error::RuntimeError(TrapKind::NotImplemented))
    );
    assert_eq!(
        call(&mut vm, "env.print", &[5]),
        Err(Error::RuntimeError(TrapKind::NotImplemented))
    );
}

#[test]
fn thirty_two_bit_arithmetic_in_a_function() {
    let mut mix = func(
        "mix",
        2,
        true,
        0,
        vec![GetLocal(0), GetLocal(1), I32Add, I32Const(3), I32Shl, GetLocal(1), I32RemS, End],
    );
    mix.func_type.params = vec![ValueType::I32, ValueType::I32];
    mix.func_type.ret_type = Some(ValueType::I32);
    let mut vm = VM::new();
    vm.load_module("main", &module(vec![mix])).unwrap();
    let mut inst = vm.spawn();
    assert_eq!(
        inst.call("main", "mix", &[Value::I32(5), Value::I32(7)]),
        Ok(Some(Value::I32(((5 + 7) << 3) % 7)))
    );
    assert_eq!(
        inst.call("main", "mix", &[Value::I32(i32::MAX), Value::I32(1)]),
        Ok(Some(Value::I32(0)))
    );
    assert_eq!(
        inst.call("main", "mix", &[Value::I32(1), Value::I32(0)]),
        Err(Error::RuntimeError(TrapKind::DivisionByZero))
    );
}
