use atic_vm::linker::{find_callable, Function, LinkEntry, LinkError, Linker, coerce_operand};
use atic_vm::parse::{generate, ParseEntry, ParserConfig, ParsedFunction};
use atic_vm::vm::{ArithOp, Effect, VM};

fn lines(text: &str) -> Vec<String> {
    text.lines().map(String::from).collect()
}

fn parse(text: &str) -> Result<Vec<ParsedFunction>, String> {
    generate(&lines(text), &ParserConfig::new().unwrap())
}


fn to_function(f: &ParsedFunction) -> Function {
    Function {
        name: f.name.clone(),
        size: f.registers.parse::<f64>().unwrap() as i32,
        args: f.params.parse::<f64>().unwrap() as i32,
        temp_address: 0,
        instructions: f
            .instructions
            .iter()
            .map(|e| match e {
                ParseEntry::ParseLabel(l) => LinkEntry::Label(l.parse::<f64>().unwrap() as i32),
                ParseEntry::ParseInstruction(i) => LinkEntry::Op {
                    name: i.name.clone(),
                    operands: i.params.iter().map(|p| coerce_operand(p.parse::<f64>().ok().map(f64::to_bits))).collect(),
                },
            })
            .collect(),
    }
}

fn link(text: &str) -> Result<(Linker, Vec<Function>), LinkError> {
    let mut functions: Vec<Function> = parse(text).unwrap().iter().map(to_function).collect();
    let mut linker = Linker::new();
    for f in &mut functions {
        linker.feed_function(f)?;
    }
    Ok((linker, functions))
}

fn run_text(text: &str) -> (VM, Vec<f64>) {
    let (linker, functions) = link(text).unwrap();
    let main = find_callable(&functions, &"Main.main".to_string()).unwrap();
    let mut vm = VM::new(linker.instructions);
    vm.start(main.address as usize, main.args as usize).unwrap();
    let mut printed = vec![];
    while vm.running() {
        let r = match vm.arith_request() {
            Some(q) => {
                let (x, y) = (f64::from_bits(q.lhs), f64::from_bits(q.rhs));
                match q.op {
                    ArithOp::Add => x + y,
                    ArithOp::Subtract => x - y,
                    ArithOp::Multiply => x * y,
                    ArithOp::Divide => x / y,
                }
                .to_bits()
            }
            None => 0,
        };
        if let Effect::Print(_, b) = vm.tick(r).unwrap() {
            printed.push(f64::from_bits(b));
        }
    }
    (vm, printed)
}

#[test]
fn text_constant_exit() {
    let (vm, printed) = run_text("fn Main.main\n  LoadConst: 0, 7\n  Exit: 0\n  registers 1\n  params 0\n  end\n");
    assert!(!vm.running());
    assert_eq!(f64::from_bits(vm.exit_code()), 0.0);
    assert!(printed.is_empty());
}

#[test]
fn text_addition() {
    let text = "fn Main.main\n  LoadConst: 0, 2\n  LoadConst: 1, 3\n  Add: 2, 0, 1\n  Debug: 2\n  Exit: 0\n  registers 3\n  params 0\n  end";
    assert_eq!(run_text(text).1, vec![5.0]);
}

#[test]
fn text_countdown_loop() {
    let text = "fn Main.main\n  LoadConst: 0, 3\n  LoadConst: 1, 1\n  LoadConst: 2, 0\n  #0\n  Smaller: 3, 2, 0\n  JumpIfNot: 3, 1\n  Debug: 0\n  Subtract: 0, 0, 1\n  Jump: 0\n  #1\n  Exit: 0\n  registers 4\n  params 0\n  end";
    assert_eq!(run_text(text).1, vec![3.0, 2.0, 1.0]);
}

#[test]
fn text_unknown_mnemonic() {
    let text = "fn Main.main\n  Frobnicate: 1, 2, 3\n  registers 1\n  params 0\n  end";
    assert_eq!(link(text).err().unwrap(), LinkError::UnknownCommand("Frobnicate".to_string()));
}

#[test]
fn text_undefined_label() {
    let text = "fn Main.main\n  Jump: 99\n  registers 1\n  params 0\n  end";
    assert_eq!(link(text).err().unwrap(), LinkError::UndefinedLabel(99));
}

#[test]
fn text_permissive_operand() {
    let text = "fn Main.main\n  LoadConst: 0, 5\n  LoadConst: 0, hello\n  Debug: 0\n  Exit: 0\n  registers 1\n  params 0\n  end";
    assert_eq!(run_text(text).1, vec![0.0]);
}

#[test]
fn reads_functions_and_entries() {
    let fs = parse("junk line\nfn A.b\n  #3\n  Copy: 1, \"x, y\"\nregisters 2\nparams 1\nend\nfn Main.main\n  Exit: 0\nregisters 1\nparams 0\n  end").unwrap();
    assert_eq!(fs.len(), 2);
    assert_eq!((fs[0].name.as_str(), fs[0].registers.as_str(), fs[0].params.as_str()), ("A.b", "2", "1"));
    assert!(matches!(&fs[0].instructions[0], ParseEntry::ParseLabel(l) if l == "3"));
    match &fs[0].instructions[1] {
        ParseEntry::ParseInstruction(i) => {
            assert_eq!(i.name, "Copy");
            assert_eq!(i.params, vec!["1", "x, y"]);
        }
        _ => panic!("expected an instruction"),
    }
    assert_eq!(fs[1].name, "Main.main");
}

#[test]
fn parse_errors() {
    assert_eq!(parse("fn F\n  bogus\n").err().unwrap(), "Expected \"registers\" parameter, but got   bogus");
    assert_eq!(parse("fn F\nregisters 1\nnope\n  end").err().unwrap(), "Expected \"params\" parameter");
    assert_eq!(parse("fn F\nregisters 1\nparams 0\nfin").err().unwrap(), "Expected \"end\" parameter");
    assert_eq!(parse("fn F\n  Nop: \n").err().unwrap(), "Missing \"params\" parameter");
    assert_eq!(parse("fn F\nregisters 1\nparams 0").err().unwrap(), "Missing \"end\" parameter");
    assert_eq!(parse("fn F\nregisters 1\nparams 0\n  endx").err().unwrap(), "Expected \"end\" parameter");
    assert!(parse("").unwrap().is_empty());
}

#[test]
fn end_line_may_be_indented() {
    let fs = parse("fn Main.main\n  LoadConst: 0, 7\n  Exit: 0\n  registers 1\n  params 0\n  end").unwrap();
    assert_eq!(fs.len(), 1);
    assert_eq!((fs[0].name.as_str(), fs[0].registers.as_str(), fs[0].params.as_str()), ("Main.main", "1", "0"));
    assert_eq!(fs[0].instructions.len(), 2);
    assert_eq!(parse("fn F\nregisters 1\nparams 0\n\t end \t").unwrap().len(), 1);
}
