// Holds the machine against a plain interpreter of the instruction stream
// on an operand stack, over programs made by a small generator.
use s1vm::OpCode::{
    Block, Br, BrIf, BrTable, Call, Drop, Else, End, GetLocal, I64Add, I64And, I64Const, I64DivS,
    I64Eqz, I64LtS, I64Mul, I64Ne, I64Sub, I64Xor, If, Loop, Nop, Return, Select, SetLocal,
    TeeLocal, Unreachable,
};
use s1vm::{
    DecodedFunction, DecodedModule, Error, Export, FunctionType, OpCode, TrapKind, Value,
    ValueType, VM,
};

// ---- the plain interpreter

#[derive(Debug, PartialEq)]
enum Stop {
    Trap(TrapKind),
    Fuel,
}

struct Label {
    is_loop: bool,
    head: usize,
    end: usize,
    height: usize,
    result: bool,
}

/// For each instruction that opens a block: the place of its `Else`, if it
/// has one, and of its `End`.
fn matches(code: &[OpCode]) -> Vec<(usize, usize)> {
    let mut out = vec![(0, 0); code.len()];
    let mut open: Vec<usize> = vec![];
    for (pc, op) in code.iter().enumerate() {
        match op {
            Block(_) | Loop(_) | If(_) => open.push(pc),
            Else => {
                let start = *open.last().unwrap();
                out[start].0 = pc;
            },
            End => {
                if let Some(start) = open.pop() {
                    out[start].1 = pc;
                    let else_at = out[start].0;
                    if else_at != 0 {
                        out[else_at].1 = pc;
                    }
                }
            },
            _ => {},
        }
    }
    out
}

fn run(funcs: &[DecodedFunction], idx: usize, args: &[u64], fuel: &mut u64) -> Result<Option<u64>, Stop> {
    let func = &funcs[idx];
    let code = &func.code;
    let ends = matches(code);
    let has_result = func.func_type.ret_type.is_some();
    let mut locals: Vec<u64> = args.to_vec();
    locals.resize(args.len() + func.locals.len(), 0);
    let mut stack: Vec<u64> = vec![];
    let mut labels: Vec<Label> =
        vec![Label { is_loop: false, head: 0, end: code.len() - 1, height: 0, result: has_result }];
    let mut pc = 0;
    loop {
        if *fuel == 0 {
            return Err(Stop::Fuel);
        }
        *fuel -= 1;
        let op = &code[pc];
        pc += 1;
        let mut branch: Option<u32> = None;
        match op {
            Nop => {},
            Unreachable => return Err(Stop::Trap(TrapKind::Unreachable)),
            Block(t) | Loop(t) => labels.push(Label {
                is_loop: matches!(op, Loop(_)),
                head: pc,
                end: ends[pc - 1].1,
                height: stack.len(),
                result: t.is_some(),
            }),
            If(t) => {
                let cond = stack.pop().unwrap();
                let (else_at, end) = ends[pc - 1];
                labels.push(Label {
                    is_loop: false,
                    head: pc,
                    end,
                    height: stack.len(),
                    result: t.is_some(),
                });
                if cond == 0 {
                    if else_at != 0 {
                        pc = else_at + 1;
                    } else {
                        pc = end;
                    }
                }
            },
            Else => {
                // the end of the then arm: go on behind the end of the if
                pc = labels.last().unwrap().end;
            },
            End => {
                let label = labels.pop().unwrap();
                if labels.is_empty() {
                    return Ok(if label.result { stack.pop() } else { None });
                }
            },
            Br(depth) => branch = Some(*depth),
            BrIf(depth) => {
                if stack.pop().unwrap() != 0 {
                    branch = Some(*depth);
                }
            },
            BrTable(table, default) => {
                let at = stack.pop().unwrap() as u32 as usize;
                branch = Some(if at < table.len() { table[at] } else { *default });
            },
            Return => return Ok(if has_result { stack.pop() } else { None }),
            Call(callee) => {
                let count = funcs[*callee as usize].func_type.params.len();
                let from = stack.len() - count;
                let params: Vec<u64> = stack.drain(from..).collect();
                if let Some(ret) = run(funcs, *callee as usize, &params, fuel)? {
                    stack.push(ret);
                }
            },
            Drop => {
                stack.pop().unwrap();
            },
            Select => {
                let cond = stack.pop().unwrap();
                let second = stack.pop().unwrap();
                let first = stack.pop().unwrap();
                stack.push(if cond != 0 { first } else { second });
            },
            GetLocal(idx) => stack.push(locals[*idx as usize]),
            SetLocal(idx) => locals[*idx as usize] = stack.pop().unwrap(),
            TeeLocal(idx) => locals[*idx as usize] = *stack.last().unwrap(),
            I64Const(val) => stack.push(*val as u64),
            I64Eqz => {
                let val = stack.pop().unwrap();
                stack.push((val == 0) as u64);
            },
            _ => {
                let right = stack.pop().unwrap() as i64;
                let left = stack.pop().unwrap() as i64;
                let res = match op {
                    I64Add => left.wrapping_add(right),
                    I64Sub => left.wrapping_sub(right),
                    I64Mul => left.wrapping_mul(right),
                    I64And => left & right,
                    I64Xor => left ^ right,
                    I64LtS => (left < right) as i64,
                    I64Ne => (left != right) as i64,
                    I64DivS => {
                        if right == 0 {
                            return Err(Stop::Trap(TrapKind::DivisionByZero));
                        }
                        match left.checked_div(right) {
                            Some(res) => res,
                            None => return Err(Stop::Trap(TrapKind::InvalidConversionToInt)),
                        }
                    },
                    other => panic!("no such operator here: {:?}", other),
                };
                stack.push(res as u64);
            },
        }
        if let Some(depth) = branch {
            let at = labels.len() - 1 - depth as usize;
            if at == 0 {
                return Ok(if has_result { stack.pop() } else { None });
            }
            let carried = if labels[at].result && !labels[at].is_loop { stack.pop() } else { None };
            stack.truncate(labels[at].height);
            stack.extend(carried);
            if labels[at].is_loop {
                pc = labels[at].head;
                labels.truncate(at + 1);
            } else {
                pc = labels[at].end + 1;
                labels.truncate(at);
            }
        }
    }
}

// ---- the generator

struct Gen {
    seed: u64,
    code: Vec<OpCode>,
    /// for each open block: whether it is a loop, and whether it has a result
    labels: Vec<(bool, bool)>,
    locals: u32,
    callees: u32,
}

impl Gen {
    fn next(&mut self, bound: u64) -> u64 {
        self.seed = self.seed.wrapping_mul(6364136223846793005).wrapping_add(1442695040888963407);
        (self.seed >> 33) % bound
    }

    fn local(&mut self) -> u32 {
        // the last local counts the rounds of loops and is not touched
        self.next(self.locals as u64 - 1) as u32
    }

    fn constant(&mut self) -> i64 {
        match self.next(6) {
            0 => 0,
            1 => 1,
            2 => -1,
            3 => i64::MIN,
            4 => self.next(100) as i64,
            _ => (self.next(1 << 31) as i64) << 20,
        }
    }

    /// An expression: it leaves one operand more than it finds.
    fn expr(&mut self, depth: u32) {
        let choice = if depth == 0 { self.next(2) } else { self.next(13) };
        match choice {
            0 => {
                let val = self.constant();
                self.code.push(I64Const(val));
            },
            1 => {
                let idx = self.local();
                self.code.push(GetLocal(idx));
            },
            2 | 3 => {
                self.expr(depth - 1);
                self.expr(depth - 1);
                let op = match self.next(8) {
                    0 => I64Add,
                    1 => I64Sub,
                    2 => I64Mul,
                    3 => I64And,
                    4 => I64Xor,
                    5 => I64LtS,
                    6 => I64Ne,
                    _ => I64DivS,
                };
                self.code.push(op);
            },
            4 => {
                self.expr(depth - 1);
                self.code.push(I64Eqz);
            },
            5 => {
                self.expr(depth - 1);
                let idx = self.local();
                self.code.push(TeeLocal(idx));
            },
            6 => {
                self.expr(depth - 1);
                self.expr(depth - 1);
                self.expr(depth - 1);
                self.code.push(Select);
            },
            7 => {
                // an operand that waits while statements run
                self.expr(depth - 1);
                self.stmts(depth - 1);
                self.expr(depth - 1);
                self.code.push(I64Add);
            },
            8 => {
                self.code.push(Block(Some(ValueType::I64)));
                self.labels.push((false, true));
                self.stmts(depth - 1);
                self.expr(depth - 1);
                if self.next(3) == 0 {
                    self.branch(depth - 1);
                }
                self.labels.pop();
                self.code.push(End);
            },
            9 => {
                self.expr(depth - 1);
                self.code.push(If(Some(ValueType::I64)));
                self.labels.push((false, true));
                self.stmts(depth - 1);
                self.expr(depth - 1);
                self.code.push(Else);
                self.expr(depth - 1);
                self.labels.pop();
                self.code.push(End);
            },
            10 => {
                self.code.push(Loop(Some(ValueType::I64)));
                self.labels.push((true, true));
                self.expr(depth - 1);
                self.labels.pop();
                self.code.push(End);
            },
            11 if self.callees > 0 => {
                let callee = self.next(self.callees as u64) as u32;
                self.expr(depth - 1);
                self.expr(depth - 1);
                self.code.push(Call(callee));
            },
            _ => {
                // a value that is carried out of a block past an operand
                self.code.push(Block(Some(ValueType::I64)));
                self.labels.push((false, true));
                self.expr(depth - 1);
                self.expr(depth - 1);
                self.expr(depth - 1);
                self.code.push(BrIf(0));
                self.code.push(I64Sub);
                self.labels.pop();
                self.code.push(End);
            },
        }
    }

    /// A branch at a place where the operand stack of the block is empty
    /// but for the operands that the branch takes; `with` tells whether one
    /// operand is there.
    fn branch(&mut self, depth: u32) {
        // the operand on top is the value of the innermost block: branch
        // conditionally to a block that takes a value, keeping it otherwise
        let count = self.labels.len();
        let pick = self.next(count as u64 + 1) as usize;
        if pick == count {
            // the block of the function
            self.expr(depth);
            self.code.push(BrIf(count as u32));
        } else {
            let (is_loop, result) = self.labels[count - 1 - pick];
            if result && !is_loop {
                self.expr(depth);
                self.code.push(BrIf(pick as u32));
            }
        }
    }

    /// Statements: they leave the operand stack as they find it.
    fn stmts(&mut self, depth: u32) {
        let count = self.next(3);
        for _ in 0..count {
            self.stmt(depth);
        }
    }

    fn stmt(&mut self, depth: u32) {
        let choice = if depth == 0 { self.next(3) } else { self.next(11) };
        match choice {
            0 => self.code.push(Nop),
            1 | 2 => {
                self.expr(depth);
                let idx = self.local();
                self.code.push(SetLocal(idx));
            },
            3 => {
                self.expr(depth - 1);
                self.code.push(Drop);
            },
            4 => {
                self.code.push(Block(None));
                self.labels.push((false, false));
                self.stmts(depth - 1);
                self.leave(depth - 1);
                self.stmts(depth - 1);
                self.labels.pop();
                self.code.push(End);
            },
            5 => {
                self.expr(depth - 1);
                self.code.push(If(None));
                self.labels.push((false, false));
                self.stmts(depth - 1);
                self.leave(depth - 1);
                if self.next(2) == 0 {
                    self.code.push(Else);
                    self.stmts(depth - 1);
                }
                self.labels.pop();
                self.code.push(End);
            },
            6 => {
                // a loop of a few rounds, counted in the last local
                let counter = self.locals - 1;
                let rounds = self.next(4) as i64 + 1;
                self.code.extend([I64Const(rounds), SetLocal(counter)]);
                self.code.push(Loop(None));
                self.labels.push((true, false));
                self.stmt(depth - 1);
                // once more while the counter stays above zero
                self.code.extend([
                    I64Const(0),
                    GetLocal(counter),
                    I64Const(1),
                    I64Sub,
                    TeeLocal(counter),
                    I64LtS,
                    BrIf(0),
                ]);
                self.labels.pop();
                self.code.push(End);
            },
            7 => {
                // a branch table out of nested blocks that take no value
                self.code.push(Block(None));
                self.code.push(Block(None));
                self.labels.push((false, false));
                self.labels.push((false, false));
                self.expr(depth - 1);
                self.code.push(BrTable(vec![0, 1, 0], 1));
                self.labels.pop();
                self.code.push(End);
                self.stmts(depth - 1);
                self.labels.pop();
                self.code.push(End);
            },
            8 => {
                self.expr(depth - 1);
                self.code.push(If(None));
                self.labels.push((false, false));
                if self.next(2) == 0 {
                    self.expr(depth - 1);
                    self.code.push(Return);
                } else {
                    self.code.push(Unreachable);
                }
                // dead code
                self.code.extend([I64Add, Drop]);
                self.labels.pop();
                self.code.push(End);
            },
            _ => self.leave(depth - 1),
        }
    }

    /// A conditional branch out of some open block, with the value that
    /// the block takes if it takes one.
    fn leave(&mut self, depth: u32) {
        let count = self.labels.len();
        let pick = self.next(count as u64 + 1) as usize;
        let (is_loop, result) =
            if pick == count { (false, true) } else { self.labels[count - 1 - pick] };
        if is_loop {
            // a branch back would not end
            return;
        }
        if result {
            self.expr(depth);
            self.expr(depth);
            self.code.push(BrIf(pick as u32));
            self.code.push(Drop);
        } else {
            self.expr(depth);
            self.code.push(BrIf(pick as u32));
        }
    }
}

fn generate(seed: u64, callees: u32, params: usize, locals: usize) -> DecodedFunction {
    let mut gen = Gen {
        seed,
        code: vec![],
        labels: vec![],
        locals: (params + locals) as u32,
        callees,
    };
    gen.stmts(3);
    gen.expr(4);
    gen.code.push(End);
    DecodedFunction {
        name: format!("f{}", callees),
        func_type: FunctionType {
            params: vec![ValueType::I64; params],
            ret_type: Some(ValueType::I64),
        },
        is_imported: false,
        locals: vec![ValueType::I64; locals],
        code: gen.code,
    }
}

fn expected(funcs: &[DecodedFunction], idx: usize, args: &[i64]) -> Result<Option<Value>, Error> {
    let cells: Vec<u64> = args.iter().map(|v| *v as u64).collect();
    let mut fuel = 1_000_000;
    match run(funcs, idx, &cells, &mut fuel) {
        Ok(ret) => Ok(ret.map(|cell| Value::I64(cell as i64))),
        Err(Stop::Trap(trap)) => Err(Error::RuntimeError(trap)),
        Err(Stop::Fuel) => panic!("the generator made a program that does not end"),
    }
}

#[test]
fn machine_agrees_with_the_plain_interpreter() {
    let inputs: [[i64; 2]; 6] =
        [[0, 0], [1, 2], [-1, 7], [i64::MIN, -1], [5, 0], [123456789, -987654321]];
    let mut calls = 0;
    let mut traps = 0;
    for seed in 0..400u64 {
        // three functions: each may call the ones before it
        let funcs: Vec<DecodedFunction> =
            (0..3).map(|idx| generate(seed * 3 + idx as u64, idx, 2, 3)).collect();
        let exports = funcs
            .iter()
            .enumerate()
            .map(|(idx, f)| Export { field: f.name.clone(), func_idx: idx as u32 })
            .collect();
        let module = DecodedModule { types: vec![], functions: funcs, exports };
        let mut vm = VM::new();
        let loaded = vm.load_module("main", &module);
        assert_eq!(loaded, Ok(0), "seed {}: {:?}", seed, module.functions);
        let mut inst = vm.spawn();
        for idx in 0..3 {
            for args in inputs {
                let want = expected(&module.functions, idx, &args);
                let params = [Value::I64(args[0]), Value::I64(args[1])];
                let got = inst.call("main", &module.functions[idx].name, &params);
                assert_eq!(
                    got, want,
                    "seed {}, function {}, arguments {:?}: {:?}",
                    seed, idx, args, module.functions[idx].code
                );
                calls += 1;
                if want.is_err() {
                    traps += 1;
                }
            }
        }
    }
    assert!(calls == 400 * 3 * 6);
    // the programs reach both outcomes
    assert!(traps > 100 && traps < calls - 100, "traps: {}", traps);
}

#[test]
fn plain_interpreter_runs_the_known_cases() {
    let parity = DecodedFunction {
        name: "parity".to_string(),
        func_type: FunctionType { params: vec![ValueType::I64], ret_type: Some(ValueType::I64) },
        is_imported: false,
        locals: vec![],
        code: vec![
            GetLocal(0),
            I64Const(1),
            I64And,
            If(Some(ValueType::I64)),
            I64Const(1),
            Else,
            I64Const(0),
            End,
            End,
        ],
    };
    let funcs = [parity];
    assert_eq!(expected(&funcs, 0, &[43]), Ok(Some(Value::I64(1))));
    assert_eq!(expected(&funcs, 0, &[42]), Ok(Some(Value::I64(0))));
}
