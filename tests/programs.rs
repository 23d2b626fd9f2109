use atic_vm::isa::{Instruction, Label};
use atic_vm::linker::{find_callable, Function, LinkEntry, LinkError, Linker, coerce_operand};
use atic_vm::vm::{ArithOp, Effect, VmError, VM};


fn op(name: &str, params: &[&str]) -> LinkEntry {
    LinkEntry::Op { name: name.to_string(), operands: params.iter().map(|p| coerce_operand(p.parse::<f64>().ok().map(f64::to_bits))).collect() }
}

fn label(id: i32) -> LinkEntry {
    LinkEntry::Label(id)
}

fn arith(op: ArithOp, a: u64, b: u64) -> u64 {
    let (x, y) = (f64::from_bits(a), f64::from_bits(b));
    let r = match op {
        ArithOp::Add => x + y,
        ArithOp::Subtract => x - y,
        ArithOp::Multiply => x * y,
        ArithOp::Divide => x / y,
    };
    r.to_bits()
}

/// Links `body` as `Main.main`, runs it to its exit, and returns the VM and
/// the numbers that `Debug` printed.
fn run(body: Vec<LinkEntry>, registers: i32, params: i32) -> (VM, Vec<f64>) {
    let mut linker = Linker::new();
    let mut main = Function { name: "Main.main".to_string(), size: registers, instructions: body, args: params, temp_address: 0 };
    linker.feed_function(&mut main).unwrap();
    let functions = vec![main];
    let c = find_callable(&functions, &"Main.main".to_string()).unwrap();
    let mut vm = VM::new(linker.instructions);
    vm.start(c.address as usize, c.args as usize).unwrap();
    let mut printed = vec![];
    let mut steps = 0;
    while vm.running() {
        let r = match vm.arith_request() {
            Some(q) => arith(q.op, q.lhs, q.rhs),
            None => 0,
        };
        match vm.tick(r).unwrap() {
            Effect::Print(_, bits) => printed.push(f64::from_bits(bits)),
            _ => {}
        }
        steps += 1;
        assert!(steps < 10_000);
    }
    (vm, printed)
}

#[test]
fn constant_exit() {
    let (vm, printed) = run(vec![op("LoadConst", &["0", "7"]), op("Exit", &["0"])], 1, 0);
    assert!(!vm.running());
    assert_eq!(f64::from_bits(vm.exit_code()), 0.0);
    assert!(printed.is_empty());
}

#[test]
fn addition() {
    let body = vec![
        op("LoadConst", &["0", "2"]),
        op("LoadConst", &["1", "3"]),
        op("Add", &["2", "0", "1"]),
        op("Debug", &["2"]),
        op("Exit", &["0"]),
    ];
    let (_, printed) = run(body, 3, 0);
    assert_eq!(printed, vec![5.0]);
}

#[test]
fn countdown_loop() {
    let body = vec![
        op("LoadConst", &["0", "3"]),
        op("LoadConst", &["1", "1"]),
        op("LoadConst", &["2", "0"]),
        label(0),
        op("Smaller", &["3", "2", "0"]),
        op("JumpIfNot", &["3", "1"]),
        op("Debug", &["0"]),
        op("Subtract", &["0", "0", "1"]),
        op("Jump", &["0"]),
        label(1),
        op("Exit", &["0"]),
    ];
    let (vm, printed) = run(body, 4, 0);
    assert_eq!(printed, vec![3.0, 2.0, 1.0]);
    assert_eq!(f64::from_bits(vm.exit_code()), 0.0);
}

#[test]
fn unknown_mnemonic() {
    let mut linker = Linker::new();
    let r = linker.feed_instructions(&vec![op("LoadConst", &["0", "1"]), op("Frobnicate", &["1", "2", "3"])]);
    assert_eq!(r.unwrap_err(), LinkError::UnknownCommand("Frobnicate".to_string()));
    assert!(linker.instructions.is_empty());
}

#[test]
fn undefined_label() {
    let mut linker = Linker::new();
    let r = linker.feed_instructions(&vec![label(1), op("Jump", &["99"])]);
    assert_eq!(r.unwrap_err(), LinkError::UndefinedLabel(99));
    assert!(linker.instructions.is_empty());
}

#[test]
fn permissive_operand() {
    let body = vec![op("LoadConst", &["0", "7"]), op("LoadConst", &["0", "hello"]), op("Debug", &["0"]), op("Exit", &["0"])];
    let (vm, printed) = run(body, 1, 0);
    assert_eq!(printed, vec![0.0]);
    assert_eq!(vm.stack[vm.activation_record_pointer], 0);
}

#[test]
fn missing_operands_read_as_zero() {
    let mut linker = Linker::new();
    linker.feed_instructions(&vec![op("LoadConst", &[]), op("Add", &["4"])]).unwrap();
    assert!(matches!(linker.instructions[0], Instruction::LoadConst(0, 0)));
    assert!(matches!(linker.instructions[1], Instruction::Add(4, 0, 0)));
}

#[test]
fn backward_jump_to_function_start() {
    let mut linker = Linker::new();
    linker.feed_instructions(&vec![op("Nop", &[]), op("Exit", &["0"])]).unwrap();
    linker.feed_instructions(&vec![label(0), op("Nop", &[]), op("Jump", &["0"])]).unwrap();
    assert!(matches!(linker.instructions[3], Instruction::Jump(Label { index: 0, address: 2 })));
}

#[test]
fn jump_if_not_at_half_falls_through() {
    let body = vec![op("LoadConst", &["0", "0.5"]), op("JumpIfNot", &["0", "1"]), op("Debug", &["0"]), label(1), op("Exit", &["1"])];
    let (vm, printed) = run(body, 1, 0);
    assert_eq!(printed, vec![0.5]);
    assert_eq!(f64::from_bits(vm.exit_code()), 1.0);
}

#[test]
fn jump_if_not_below_half_jumps() {
    let body = vec![op("LoadConst", &["0", "0.49"]), op("JumpIfNot", &["0", "1"]), op("Debug", &["0"]), label(1), op("Exit", &["2"])];
    let (vm, printed) = run(body, 1, 0);
    assert!(printed.is_empty());
    assert_eq!(f64::from_bits(vm.exit_code()), 2.0);
}

#[test]
fn jump_targets_within_program() {
    let mut linker = Linker::new();
    linker.feed_instructions(&vec![label(5), op("Nop", &[]), op("Jump", &["5"])]).unwrap();
    linker.feed_instructions(&vec![op("Nop", &[]), label(2), op("JumpIfNot", &["0", "2"]), op("Jump", &["2"])]).unwrap();
    let n = linker.instructions.len() as i32;
    for ins in &linker.instructions {
        match ins {
            Instruction::Jump(l) | Instruction::JumpIfNot(_, l) => assert!(0 <= l.address && l.address < n),
            _ => {}
        }
    }
    assert!(matches!(linker.instructions[3], Instruction::JumpIfNot(0, Label { index: 2, address: 3 })));
}

#[test]
fn callable_points_at_function_start() {
    let mut linker = Linker::new();
    let mut first = Function { name: "Lib.f".to_string(), size: 1, instructions: vec![op("Nop", &[]), op("Exit", &["0"])], args: 0, temp_address: 0 };
    let mut second = Function { name: "Main.main".to_string(), size: 3, instructions: vec![op("Debug", &["0"]), op("Exit", &["0"])], args: 2, temp_address: 0 };
    linker.feed_function(&mut first).unwrap();
    linker.feed_function(&mut second).unwrap();
    let functions = vec![first, second];
    let c = find_callable(&functions, &"Main.main".to_string()).unwrap();
    assert_eq!((c.address, c.args, c.registers), (2, 2, 3));
    assert_eq!(c.name, "Main.main");
    assert!(matches!(linker.instructions[c.address as usize], Instruction::Debug(0)));
    assert_eq!(
        find_callable(&functions, &"Missing".to_string()).unwrap_err(),
        LinkError::UnknownFunction("Missing".to_string())
    );
}

#[test]
fn relinking_gives_same_opcodes() {
    let body = || vec![label(0), op("Smaller", &["3", "2", "0"]), op("JumpIfNot", &["3", "0"]), op("Exit", &["0"])];
    let mut a = Linker::new();
    a.feed_instructions(&body()).unwrap();
    let mut b = Linker::new();
    b.feed_instructions(&vec![op("Nop", &[])]).unwrap();
    b.feed_instructions(&body()).unwrap();
    let strip = |i: &Instruction| match i {
        Instruction::Jump(l) => format!("Jump({})", l.index),
        Instruction::JumpIfNot(r, l) => format!("JumpIfNot({}, {})", r, l.index),
        other => format!("{:?}", other),
    };
    let first: Vec<String> = a.instructions.iter().map(strip).collect();
    let second: Vec<String> = b.instructions[1..].iter().map(strip).collect();
    assert_eq!(first, second);
}

#[test]
fn add_operands_swap() {
    let mut vm = VM::new(vec![Instruction::Add(2, 0, 1), Instruction::Add(2, 1, 0)]);
    vm.stack[0] = 2.5f64.to_bits();
    vm.stack[1] = 4.0f64.to_bits();
    let q1 = vm.arith_request().unwrap();
    vm.pc = 1;
    let q2 = vm.arith_request().unwrap();
    assert_eq!((q1.lhs, q1.rhs), (q2.rhs, q2.lhs));
    assert_eq!(arith(q1.op, q1.lhs, q1.rhs), arith(q2.op, q2.lhs, q2.rhs));
    assert_eq!(f64::from_bits(arith(q1.op, q1.lhs, q1.rhs)), 6.5);
}

#[test]
fn bounds_hold_during_run() {
    let mut vm = VM::new(vec![Instruction::LoadConst(0, 1.0f64.to_bits()), Instruction::Return(0)]);
    vm.start(0, 4).unwrap();
    assert_eq!((vm.activation_record_pointer, vm.active_record_size, vm.stack_pointer), (0, 4, 3));
    vm.tick(0).unwrap();
    vm.tick(0).unwrap();
    assert_eq!(vm.call_buffer[0], 1.0f64.to_bits());
    assert_eq!((vm.stack_pointer, vm.pc), (0, 1));
    assert!(vm.activation_record_pointer + vm.active_record_size <= vm.stack.len());
    assert!(vm.stack_pointer <= vm.call_stack.len());
}
