use atic_vm::isa::{Instruction, Label};
use atic_vm::linker::{coerce_operand, Operand};
use atic_vm::num::{bool_bits, eq_bits, index_bits, le_bits, lt_bits, small_bits, truthy_bits};
use atic_vm::parse::{transform_arguments, Node};
use atic_vm::vm::{ArithOp, Effect, VmError, VM};

fn b(x: f64) -> u64 {
    x.to_bits()
}

#[test]
fn compares_doubles_on_bits() {
    assert!(lt_bits(b(-1.0), b(0.5)));
    assert!(lt_bits(b(-3.0), b(-2.0)));
    assert!(!lt_bits(b(-0.0), b(0.0)));
    assert!(eq_bits(b(-0.0), b(0.0)));
    assert!(!eq_bits(b(f64::NAN), b(f64::NAN)));
    assert!(!lt_bits(b(f64::NAN), b(1.0)));
    assert!(le_bits(b(2.0), b(f64::INFINITY)));
    assert!(lt_bits(b(f64::NEG_INFINITY), b(-1e300)));
    assert!(truthy_bits(b(0.5)));
    assert!(!truthy_bits(b(0.4999)));
    assert!(!truthy_bits(b(f64::NAN)));
    assert_eq!(f64::from_bits(bool_bits(true)), 1.0);
    assert_eq!(f64::from_bits(bool_bits(false)), 0.0);
}

fn step_all(vm: &mut VM) {
    while vm.pc < vm.instructions.len() {
        vm.tick(0).unwrap();
    }
}

#[test]
fn logic_and_comparison_ops() {
    let mut vm = VM::new(vec![
        Instruction::Greater(2, 0, 1),
        Instruction::GreaterEq(3, 0, 0),
        Instruction::SmallerEq(4, 1, 0),
        Instruction::Equals(5, 0, 1),
        Instruction::NonEquals(6, 0, 1),
        Instruction::Or(7, 5, 6),
        Instruction::And(8, 5, 6),
        Instruction::Not(9, 8),
        Instruction::Negate(10, 0),
        Instruction::Copy(11, 1),
    ]);
    vm.stack[0] = b(3.0);
    vm.stack[1] = b(-2.0);
    step_all(&mut vm);
    let got: Vec<f64> = vm.stack[2..12].iter().map(|x| f64::from_bits(*x)).collect();
    assert_eq!(got, vec![1.0, 1.0, 1.0, 0.0, 1.0, 1.0, 0.0, 1.0, -3.0, -2.0]);
}

#[test]
fn objects_store_and_load() {
    let mut vm = VM::new(vec![
        Instruction::Argument(0, 0),
        Instruction::Argument(1, 1),
        Instruction::CreateStruct(2, 2),
        Instruction::LoadMember(3, 2, 1),
        Instruction::StoreMember(2, 0, 1),
        Instruction::LoadMember(4, 2, 1),
    ]);
    vm.stack[0] = b(7.0);
    vm.stack[1] = b(9.0);
    step_all(&mut vm);
    assert_eq!(vm.stack[2], 0);
    assert_eq!(f64::from_bits(vm.stack[3]), 9.0);
    assert_eq!(f64::from_bits(vm.stack[4]), 7.0);
    assert_eq!(vm.heap, vec![b(7.0), b(7.0)]);
}

#[test]
fn arithmetic_uses_host_result() {
    let mut vm = VM::new(vec![Instruction::Divide(2, 0, 1), Instruction::Multiply(3, 0, 1)]);
    vm.stack[0] = b(1.0);
    vm.stack[1] = b(4.0);
    let q = vm.arith_request().unwrap();
    assert_eq!((q.op, q.lhs, q.rhs), (ArithOp::Divide, b(1.0), b(4.0)));
    vm.tick(b(0.25)).unwrap();
    assert_eq!(vm.arith_request().unwrap().op, ArithOp::Multiply);
    assert_eq!(vm.stack[2], b(0.25));
    assert_eq!(vm.dbg_iter, 1);
}

#[test]
fn debug_and_exit_effects() {
    let mut vm = VM::new(vec![Instruction::LoadConst(1, b(4.0)), Instruction::Debug(1), Instruction::Exit(b(3.0))]);
    assert_eq!(vm.tick(0), Ok(Effect::Continue));
    assert_eq!(vm.tick(0), Ok(Effect::Print(1, b(4.0))));
    assert_eq!(vm.tick(0), Ok(Effect::Exit(b(3.0))));
    assert!(!vm.running());
    assert_eq!(vm.exit_code(), b(3.0));
}

#[test]
fn each_error_leaves_state_alone() {
    let cases: Vec<(Instruction, VmError)> = vec![
        (Instruction::Debug(-1), VmError::RegisterOutOfRange),
        (Instruction::Argument(-1, 0), VmError::ArgumentOutOfRange),
        (Instruction::Jump(Label { index: 0, address: -1 }), VmError::BadJumpTarget),
        (Instruction::LoadMember(0, 1, 0), VmError::BadObject),
        (Instruction::Return(0), VmError::CallStackUnderflow),
        (Instruction::CreateStruct(0, -1), VmError::OutOfMemory),
        (Instruction::Throw(0), VmError::Thrown),
        (Instruction::LoadArray(0, 1, 2), VmError::BadObject),
        (Instruction::CreateEnumEntry(0, 1, 0), VmError::BadObject),
        (Instruction::StringEquals(0, 1, 2), VmError::BadObject),
    ];
    for (ins, err) in cases {
        let mut vm = VM::new(vec![ins]);
        assert_eq!(vm.tick(0), Err(err));
        assert_eq!((vm.pc, vm.dbg_iter), (0, 0));
    }
    let mut vm = VM::new(vec![]);
    assert_eq!(vm.tick(0), Err(VmError::PcOutOfRange));
}

#[test]
fn start_refuses_overflow() {
    let mut vm = VM::new(vec![Instruction::Nop]);
    assert_eq!(vm.start(0, 10_001), Err(VmError::StackOverflow));
    let mut frames = 0;
    while vm.start(0, 0).is_ok() {
        frames += 1;
    }
    assert_eq!(frames, 3333);
    assert_eq!(vm.start(0, 0), Err(VmError::CallStackOverflow));
}

#[test]
fn splits_operands() {
    assert_eq!(transform_arguments("0, 7".to_string()), vec!["0", "7"]);
    assert_eq!(transform_arguments(" 1 ,2,  3 ".to_string()), vec!["1", "2", "3"]);
    assert_eq!(transform_arguments("\"a, b\", c".to_string()), vec!["a, b", "c"]);
    assert_eq!(transform_arguments("\"x\\\"y\"".to_string()), vec!["x\\\"y"]);
    assert_eq!(transform_arguments("1,".to_string()), vec!["1"]);
    assert_eq!(transform_arguments(", 1".to_string()), vec!["", "1"]);
    assert!(transform_arguments("".to_string()).is_empty());
    assert_eq!(transform_arguments("\"ab\\".to_string()), vec!["ab\\"]);
}

#[test]
fn builds_linked_list() {
    let mut n = Node::construct(&[1, 2, 3]);
    let mut seen = vec![];
    while let Node::Unit(v, rest) = n {
        seen.push(v);
        n = *rest;
    }
    assert_eq!(seen, vec![1, 2, 3]);
    assert!(matches!(Node::construct(&[]), Node::End));
}

fn callable(address: i32, registers: i32) -> atic_vm::isa::Callable {
    atic_vm::isa::Callable { name: "F.f".to_string(), registers, address, args: 1, capture_size: 0, capture: vec![] }
}

#[test]
fn invoke_and_return() {
    let mut vm = VM::new(vec![
        Instruction::LoadFunction(0, callable(5, 2)),
        Instruction::LoadConst(1, b(20.0)),
        Instruction::Argument(0, 1),
        Instruction::InvokeFunction(0, 1),
        Instruction::Exit(0),
        Instruction::Add(1, 0, 0),
        Instruction::Return(1),
    ]);
    vm.start(0, 3).unwrap();
    for _ in 0..4 {
        vm.tick(0).unwrap();
    }
    assert_eq!((vm.pc, vm.activation_record_pointer, vm.active_record_size, vm.stack_pointer), (5, 3, 2, 6));
    assert_eq!(vm.stack[3], b(20.0));
    assert_eq!(&vm.call_stack[3..6], &[4, 0, 3]);
    let q = vm.arith_request().unwrap();
    assert_eq!((q.op, q.lhs, q.rhs), (ArithOp::Add, b(20.0), b(20.0)));
    vm.tick(b(40.0)).unwrap();
    vm.tick(0).unwrap();
    assert_eq!(vm.call_buffer[0], b(40.0));
    assert_eq!((vm.pc, vm.activation_record_pointer, vm.active_record_size, vm.stack_pointer), (4, 0, 3, 3));
    assert_eq!(vm.tick(0), Ok(Effect::Exit(0)));
}

#[test]
fn invoke_refuses_bad_calls() {
    let mut vm = VM::new(vec![Instruction::LoadFunction(0, callable(0, 1)), Instruction::InvokeFunction(0, 2)]);
    vm.tick(0).unwrap();
    assert_eq!(vm.tick(0), Err(VmError::ArgumentOutOfRange));
    let mut vm = VM::new(vec![Instruction::InvokeFunction(0, 0)]);
    assert_eq!(vm.tick(0), Err(VmError::BadObject));
    let mut vm = VM::new(vec![Instruction::LoadFunction(0, callable(-1, 1))]);
    assert_eq!(vm.tick(0), Err(VmError::BadObject));
}

#[test]
fn strings_compare_and_concat() {
    let mut vm = VM::new(vec![
        Instruction::LoadString(0, "ab".to_string()),
        Instruction::LoadString(1, "c".to_string()),
        Instruction::Concat(2, 0, 1),
        Instruction::LoadString(3, "abc".to_string()),
        Instruction::StringEquals(4, 2, 3),
        Instruction::StringNonEquals(5, 0, 1),
        Instruction::StringEquals(6, 0, 1),
    ]);
    step_all(&mut vm);
    assert_eq!(vm.strings, vec!["ab", "c", "abc", "abc"]);
    assert_eq!(vm.stack[2], 2);
    assert_eq!(f64::from_bits(vm.stack[4]), 1.0);
    assert_eq!(f64::from_bits(vm.stack[5]), 1.0);
    assert_eq!(f64::from_bits(vm.stack[6]), 0.0);
}

#[test]
fn reads_whole_numbers_as_indices() {
    assert_eq!(index_bits(b(0.0)), Some(0));
    assert_eq!(index_bits(b(1.0)), Some(1));
    assert_eq!(index_bits(b(6.0)), Some(6));
    assert_eq!(index_bits(b(1024.0)), Some(1024));
    assert_eq!(index_bits(b(2.5)), None);
    assert_eq!(index_bits(b(-1.0)), None);
    assert_eq!(index_bits(b(0.5)), None);
    assert_eq!(index_bits(b(f64::NAN)), None);
}

#[test]
fn enums_closures_and_arrays() {
    let mut vm = VM::new(vec![
        Instruction::Argument(0, 0),
        Instruction::Argument(1, 1),
        Instruction::CreateEnumEntry(2, 5, 3),
        Instruction::LoadEnumType(3, 2),
        Instruction::LoadEnumMember(4, 2, 2),
        Instruction::CopyEnumMember(5, 2, 1),
        Instruction::CreateClosure(6, 2),
        Instruction::LoadConst(7, b(1.0)),
        Instruction::LoadArray(8, 6, 7),
        Instruction::StoreArray(6, 0, 7),
        Instruction::LoadArray(9, 6, 7),
    ]);
    vm.stack[0] = b(7.0);
    vm.stack[1] = b(9.0);
    step_all(&mut vm);
    assert_eq!(vm.stack[3], 5);
    assert_eq!(f64::from_bits(vm.stack[4]), 9.0);
    assert_eq!(f64::from_bits(vm.stack[5]), 7.0);
    assert_eq!(vm.stack[6], 1);
    assert_eq!(f64::from_bits(vm.stack[8]), 9.0);
    assert_eq!(f64::from_bits(vm.stack[9]), 7.0);
    assert_eq!(vm.spans, vec![(0, 3), (3, 2)]);
}

#[test]
fn match_jumps_by_tag() {
    let mut table = fxhash::FxHashMap::default();
    table.insert(2i8, Label { index: 1, address: 7 });
    let program = |t| vec![Instruction::Match(0, Label { index: 0, address: 4 }, t)];
    let mut vm = VM::new(program(table.clone()));
    vm.stack[0] = 2;
    vm.tick(0).unwrap();
    assert_eq!(vm.pc, 7);
    let mut vm = VM::new(program(table));
    vm.stack[0] = 3;
    vm.tick(0).unwrap();
    assert_eq!(vm.pc, 4);
}

#[test]
fn truncates_doubles_to_small_integers() {
    assert_eq!(small_bits(b(3.7)), 3);
    assert_eq!(small_bits(b(-3.7)), -3);
    assert_eq!(small_bits(b(0.99)), 0);
    assert_eq!(small_bits(b(-0.0)), 0);
    assert_eq!(small_bits(b(127.9)), 127);
    assert_eq!(small_bits(b(300.0)), 127);
    assert_eq!(small_bits(b(-128.5)), -128);
    assert_eq!(small_bits(b(-1e9)), -128);
    assert_eq!(small_bits(b(f64::INFINITY)), 127);
    assert_eq!(small_bits(b(f64::NEG_INFINITY)), -128);
    assert_eq!(small_bits(b(f64::NAN)), 0);
    for x in [-200.0, -128.0, -5.5, 1.0, 42.25, 126.999, 1e-300] {
        assert_eq!(small_bits(b(x)), x as i8);
    }
}

#[test]
fn unparseable_operand_reads_zero() {
    assert_eq!(coerce_operand(None), Operand { small: 0, number: 0 });
    assert_eq!(coerce_operand(Some(b(7.5))), Operand { small: 7, number: b(7.5) });
}
