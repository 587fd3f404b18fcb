use lox_vm::chunk::Chunk;
use lox_vm::instruction::{Instruction, InstructionReader, InstructionWriter, OpCode};
use lox_vm::value::{ArithOp, Number, Value};
use lox_vm::vm::{Effect, Vm, VmError};

fn num(x: f64) -> Value {
    Value::Number(Number::from_bits(x.to_bits()))
}

fn text(s: &str) -> Value {
    Value::String(s.to_string())
}

fn arith(op: ArithOp, a: Number, b: Number) -> Number {
    let x = f64::from_bits(a.to_bits());
    let y = f64::from_bits(b.to_bits());
    let z = match op {
        ArithOp::Add => x + y,
        ArithOp::Subtract => x - y,
        ArithOp::Multiply => x * y,
        ArithOp::Divide => x / y,
    };
    Number::from_bits(z.to_bits())
}

fn number_text(n: Number) -> String {
    format!("{}", f64::from_bits(n.to_bits()))
}

/// A chunk with the given constants and no code but `padding` bytes.
fn chunk_with(constants: Vec<Value>, padding: usize) -> Chunk {
    let mut chunk = Chunk::new();
    for c in constants {
        chunk.add_constant(c).unwrap();
    }
    for _ in 0..padding {
        chunk.write(OpCode::Pop.to_byte(), 1);
    }
    chunk
}

fn stack_of(vm: &Vm) -> Vec<String> {
    (0..vm.stack_len()).map(|i| vm.stack_value(i).unwrap().to_text(&number_text)).collect()
}

/// A machine whose stack holds `values`, from the bottom up.
fn vm_with(values: Vec<Value>) -> Vm {
    let mut chunk = Chunk::new();
    let mut count = 0;
    for v in values {
        let index = chunk.add_constant(v).unwrap();
        chunk.write(OpCode::Constant.to_byte(), 1);
        chunk.write(index, 1);
        count += 1;
    }
    let mut vm = Vm::new(false);
    let mut reader = InstructionReader::new(&chunk);
    for _ in 0..count {
        assert!(matches!(vm.step(&mut reader, &arith), Ok(Effect::Continue)));
    }
    vm
}

fn exec(vm: &mut Vm, chunk: &Chunk, ip: usize, ins: Instruction) -> (Result<Effect, VmError>, usize) {
    let mut reader = InstructionReader::new(chunk);
    reader.set_ip(ip).unwrap();
    let r = vm.execute(&mut reader, &ins, 7, 3, &arith);
    (r, reader.position())
}

fn exec_simple(vm: &mut Vm, op: OpCode) -> Result<Effect, VmError> {
    let chunk = chunk_with(vec![], 0);
    exec(vm, &chunk, 0, Instruction::simple(op)).0
}

fn fault(r: Result<Effect, VmError>) -> String {
    match r {
        Err(e) => {
            assert!(e.details.is_some());
            e.msg
        }
        Ok(effect) => panic!("no fault but {:?}", effect),
    }
}

#[test]
fn new_machine_is_empty() {
    let vm = Vm::new(true);
    assert!(vm.trace());
    assert_eq!(vm.stack_len(), 0);
    assert!(vm.stack_value(0).is_none());
    assert!(vm.global("a").is_none());
    assert!(!Vm::new(false).trace());
}

#[test]
fn constant_pushes_the_constant() {
    let chunk = chunk_with(vec![num(1.5), text("s")], 0);
    let mut vm = Vm::new(false);
    let (r, _) = exec(&mut vm, &chunk, 0, Instruction::unary(OpCode::Constant, 1));
    assert!(matches!(r, Ok(Effect::Continue)));
    let (r, _) = exec(&mut vm, &chunk, 0, Instruction::unary(OpCode::Constant, 0));
    assert!(matches!(r, Ok(Effect::Continue)));
    assert_eq!(stack_of(&vm), vec!["s", "1.5"]);
    let (r, _) = exec(&mut vm, &chunk, 0, Instruction::unary(OpCode::Constant, 2));
    assert_eq!(fault(r), "Failed to get constant at index 2");
    let (r, _) = exec(&mut vm, &chunk, 0, Instruction::simple(OpCode::Constant));
    assert_eq!(fault(r), "Opcode Constant has no operand");
}

#[test]
fn literals_push_their_value() {
    let mut vm = Vm::new(false);
    assert!(matches!(exec_simple(&mut vm, OpCode::Nil), Ok(Effect::Continue)));
    assert!(matches!(exec_simple(&mut vm, OpCode::True), Ok(Effect::Continue)));
    assert!(matches!(exec_simple(&mut vm, OpCode::False), Ok(Effect::Continue)));
    assert_eq!(stack_of(&vm), vec!["nil", "true", "false"]);
}

#[test]
fn return_halts_and_changes_nothing() {
    let mut vm = vm_with(vec![num(1.0)]);
    assert!(matches!(exec_simple(&mut vm, OpCode::Return), Ok(Effect::Halt)));
    assert_eq!(stack_of(&vm), vec!["1"]);
}

#[test]
fn negate_needs_a_number() {
    let mut vm = vm_with(vec![num(2.0)]);
    assert!(matches!(exec_simple(&mut vm, OpCode::Negate), Ok(Effect::Continue)));
    assert_eq!(stack_of(&vm), vec!["-2"]);
    let mut vm = vm_with(vec![text("x")]);
    assert_eq!(fault(exec_simple(&mut vm, OpCode::Negate)), "Attempt to negate a non-numeric value");
    let mut vm = Vm::new(false);
    assert_eq!(fault(exec_simple(&mut vm, OpCode::Negate)), "Stack underflow");
}

#[test]
fn not_needs_a_boolean() {
    let mut vm = vm_with(vec![Value::Boolean(true)]);
    assert!(matches!(exec_simple(&mut vm, OpCode::Not), Ok(Effect::Continue)));
    assert_eq!(stack_of(&vm), vec!["false"]);
    let mut vm = vm_with(vec![Value::Nil]);
    assert_eq!(fault(exec_simple(&mut vm, OpCode::Not)), "Attempted not on a non-bool value");
    let mut vm = vm_with(vec![num(0.0)]);
    assert_eq!(fault(exec_simple(&mut vm, OpCode::Not)), "Attempted not on a non-bool value");
    let mut vm = Vm::new(false);
    assert_eq!(fault(exec_simple(&mut vm, OpCode::Not)), "Stack underflow");
}

#[test]
fn arithmetic_takes_the_lower_value_as_left_operand() {
    let mut vm = vm_with(vec![num(9.0), num(7.0), num(2.0)]);
    assert!(matches!(exec_simple(&mut vm, OpCode::Subtract), Ok(Effect::Continue)));
    assert_eq!(stack_of(&vm), vec!["9", "5"]);
    assert!(matches!(exec_simple(&mut vm, OpCode::Divide), Ok(Effect::Continue)));
    assert_eq!(stack_of(&vm), vec!["1.8"]);
    let mut vm = vm_with(vec![num(3.0), num(4.0)]);
    assert!(matches!(exec_simple(&mut vm, OpCode::Multiply), Ok(Effect::Continue)));
    assert_eq!(stack_of(&vm), vec!["12"]);
    let mut vm = vm_with(vec![num(3.0), num(4.0)]);
    assert!(matches!(exec_simple(&mut vm, OpCode::Add), Ok(Effect::Continue)));
    assert_eq!(stack_of(&vm), vec!["7"]);
    let mut vm = vm_with(vec![num(1.0), num(0.0)]);
    assert!(matches!(exec_simple(&mut vm, OpCode::Divide), Ok(Effect::Continue)));
    assert_eq!(stack_of(&vm), vec!["inf"]);
}

#[test]
fn arithmetic_needs_two_numbers() {
    for op in [OpCode::Subtract, OpCode::Multiply, OpCode::Divide] {
        let mut vm = vm_with(vec![num(1.0), text("a")]);
        assert_eq!(
            fault(exec_simple(&mut vm, op)),
            "Numeric operation attempted on non-numeric values"
        );
        let mut vm = vm_with(vec![Value::Nil, num(1.0)]);
        assert_eq!(
            fault(exec_simple(&mut vm, op)),
            "Numeric operation attempted on non-numeric values"
        );
        let mut vm = vm_with(vec![num(1.0)]);
        assert_eq!(fault(exec_simple(&mut vm, op)), "Stack underflow");
    }
}

#[test]
fn add_concatenates_strings_and_rejects_mixtures() {
    let mut vm = vm_with(vec![text("foo"), text("bar")]);
    assert!(matches!(exec_simple(&mut vm, OpCode::Add), Ok(Effect::Continue)));
    assert_eq!(stack_of(&vm), vec!["foobar"]);
    for (a, b) in [(num(1.0), text("a")), (text("a"), num(1.0)), (Value::Nil, Value::Nil)] {
        let mut vm = vm_with(vec![a, b]);
        assert_eq!(
            fault(exec_simple(&mut vm, OpCode::Add)),
            "Attempted add or concatenate on non-numeric or non-string operands"
        );
    }
    let mut vm = vm_with(vec![text("a")]);
    assert_eq!(fault(exec_simple(&mut vm, OpCode::Add)), "Stack underflow");
}

#[test]
fn equal_accepts_any_two_values() {
    let cases = vec![
        (num(1.0), num(1.0), "true"),
        (num(1.0), num(2.0), "false"),
        (num(1.0), text("1"), "false"),
        (Value::Nil, Value::Boolean(false), "false"),
        (Value::Nil, Value::Nil, "true"),
        (text("a"), text("a"), "true"),
        (num(f64::NAN), num(f64::NAN), "false"),
    ];
    for (a, b, expected) in cases {
        let mut vm = vm_with(vec![a, b]);
        assert!(matches!(exec_simple(&mut vm, OpCode::Equal), Ok(Effect::Continue)));
        assert_eq!(stack_of(&vm), vec![expected]);
    }
    let mut vm = vm_with(vec![Value::Nil]);
    assert_eq!(fault(exec_simple(&mut vm, OpCode::Equal)), "Stack underflow");
}

#[test]
fn comparisons_order_values_of_one_tag() {
    let cases = vec![
        (OpCode::Less, num(1.0), num(2.0), "true"),
        (OpCode::Less, num(2.0), num(1.0), "false"),
        (OpCode::Less, num(2.0), num(2.0), "false"),
        (OpCode::Greater, num(1.0), num(2.0), "false"),
        (OpCode::Greater, num(2.0), num(1.0), "true"),
        (OpCode::Greater, num(2.0), num(2.0), "false"),
        (OpCode::Less, text("a"), text("b"), "true"),
        (OpCode::Greater, text("a"), text("b"), "false"),
        (OpCode::Less, num(f64::NAN), num(1.0), "false"),
        (OpCode::Greater, num(f64::NAN), num(1.0), "false"),
    ];
    for (op, a, b, expected) in cases {
        let mut vm = vm_with(vec![a, b]);
        assert!(matches!(exec_simple(&mut vm, op), Ok(Effect::Continue)));
        assert_eq!(stack_of(&vm), vec![expected]);
    }
}

#[test]
fn comparison_of_anything_but_two_numbers_or_two_strings_is_an_error() {
    let unordered = || {
        vec![
            (num(1.0), text("a")),
            (text("a"), num(1.0)),
            (Value::Nil, Value::Boolean(true)),
            (Value::Boolean(false), Value::Boolean(true)),
            (Value::Nil, Value::Nil),
        ]
    };
    for op in [OpCode::Less, OpCode::Greater] {
        for (a, b) in unordered() {
            let mut vm = vm_with(vec![a, b]);
            assert_eq!(
                fault(exec_simple(&mut vm, op)),
                "Attempted to compare values that are not two numbers or two strings"
            );
            assert_eq!(vm.stack_len(), 2);
        }
        let mut vm = vm_with(vec![num(1.0)]);
        assert_eq!(fault(exec_simple(&mut vm, op)), "Stack underflow");
        assert_eq!(stack_of(&vm), vec!["1"]);
    }
}

#[test]
fn a_fault_leaves_stack_globals_and_pointer_as_they_were() {
    let chunk = chunk_with(vec![text("g"), text("missing"), num(3.0)], 20);
    let mut vm = vm_with(vec![num(7.0), text("top")]);
    exec(&mut vm, &chunk, 0, Instruction::unary(OpCode::GetLocal, 0)).0.unwrap();
    exec(&mut vm, &chunk, 0, Instruction::unary(OpCode::DefineGlobal, 0)).0.unwrap();
    let failing = vec![
        Instruction::simple(OpCode::Negate),
        Instruction::simple(OpCode::Not),
        Instruction::simple(OpCode::Add),
        Instruction::simple(OpCode::Subtract),
        Instruction::simple(OpCode::Multiply),
        Instruction::simple(OpCode::Divide),
        Instruction::simple(OpCode::Less),
        Instruction::simple(OpCode::Greater),
        Instruction::unary(OpCode::Constant, 9),
        Instruction::unary(OpCode::GetGlobal, 1),
        Instruction::unary(OpCode::SetGlobal, 1),
        Instruction::unary(OpCode::DefineGlobal, 2),
        Instruction::unary(OpCode::GetLocal, 2),
        Instruction::unary(OpCode::SetLocal, 2),
        Instruction::binary(OpCode::Jump, 0, 17),
        Instruction::binary(OpCode::JumpIfFalse, 0, 1),
        Instruction::binary(OpCode::Loop, 0, 5),
        Instruction::simple(OpCode::Jump),
    ];
    for ins in failing {
        let (r, ip) = exec(&mut vm, &chunk, 4, ins);
        assert!(r.is_err(), "{:?} did not fail", ins);
        assert_eq!(ip, 4);
        assert_eq!(stack_of(&vm), vec!["7", "top"]);
        assert!(vm.global("g").unwrap().equals(&num(7.0)));
        assert!(vm.global("missing").is_none());
    }
}

#[test]
fn print_and_pop_take_one_value() {
    let mut vm = vm_with(vec![num(1.0), text("out")]);
    match exec_simple(&mut vm, OpCode::Print) {
        Ok(Effect::Print(value)) => assert!(value.equals(&text("out"))),
        other => panic!("unexpected {:?}", other),
    }
    assert_eq!(stack_of(&vm), vec!["1"]);
    assert!(matches!(exec_simple(&mut vm, OpCode::Pop), Ok(Effect::Continue)));
    assert_eq!(vm.stack_len(), 0);
    assert_eq!(fault(exec_simple(&mut vm, OpCode::Pop)), "Stack underflow");
    assert_eq!(fault(exec_simple(&mut vm, OpCode::Print)), "Stack underflow");
}

#[test]
fn define_global_takes_the_value_off_the_stack() {
    let chunk = chunk_with(vec![text("a"), num(1.0)], 0);
    let mut vm = vm_with(vec![num(5.0), text("v")]);
    let (r, _) = exec(&mut vm, &chunk, 0, Instruction::unary(OpCode::DefineGlobal, 0));
    assert!(matches!(r, Ok(Effect::Continue)));
    assert_eq!(stack_of(&vm), vec!["5"]);
    assert!(vm.global("a").unwrap().equals(&text("v")));
    // A second definition replaces the first.
    let (r, _) = exec(&mut vm, &chunk, 0, Instruction::unary(OpCode::DefineGlobal, 0));
    assert!(matches!(r, Ok(Effect::Continue)));
    assert_eq!(vm.stack_len(), 0);
    assert!(vm.global("a").unwrap().equals(&num(5.0)));
    let (r, _) = exec(&mut vm, &chunk, 0, Instruction::unary(OpCode::DefineGlobal, 0));
    assert_eq!(fault(r), "Stack underflow");
}

#[test]
fn set_global_keeps_the_value_on_the_stack() {
    let chunk = chunk_with(vec![text("a")], 0);
    let mut vm = vm_with(vec![num(1.0), num(2.0)]);
    let (r, _) = exec(&mut vm, &chunk, 0, Instruction::unary(OpCode::SetGlobal, 0));
    assert_eq!(fault(r), "Undefined variable 'a'");
    let mut vm = vm_with(vec![num(1.0), num(2.0)]);
    exec(&mut vm, &chunk, 0, Instruction::unary(OpCode::DefineGlobal, 0)).0.unwrap();
    assert_eq!(stack_of(&vm), vec!["1"]);
    let (r, _) = exec(&mut vm, &chunk, 0, Instruction::unary(OpCode::SetGlobal, 0));
    assert!(matches!(r, Ok(Effect::Continue)));
    assert_eq!(stack_of(&vm), vec!["1"]);
    assert!(vm.global("a").unwrap().equals(&num(1.0)));
    exec_simple(&mut vm, OpCode::Pop).unwrap();
    let (r, _) = exec(&mut vm, &chunk, 0, Instruction::unary(OpCode::SetGlobal, 0));
    assert_eq!(fault(r), "Stack underflow");
}

#[test]
fn get_global_pushes_the_value() {
    let chunk = chunk_with(vec![text("a"), text("b")], 0);
    let mut vm = vm_with(vec![text("v")]);
    exec(&mut vm, &chunk, 0, Instruction::unary(OpCode::DefineGlobal, 0)).0.unwrap();
    let (r, _) = exec(&mut vm, &chunk, 0, Instruction::unary(OpCode::GetGlobal, 0));
    assert!(matches!(r, Ok(Effect::Continue)));
    assert_eq!(stack_of(&vm), vec!["v"]);
    let (r, _) = exec(&mut vm, &chunk, 0, Instruction::unary(OpCode::GetGlobal, 1));
    assert_eq!(fault(r), "Undefined variable 'b'");
}

#[test]
fn global_names_must_be_string_constants() {
    let chunk = chunk_with(vec![num(1.0)], 0);
    for op in [OpCode::DefineGlobal, OpCode::GetGlobal, OpCode::SetGlobal] {
        let mut vm = vm_with(vec![num(1.0)]);
        let (r, _) = exec(&mut vm, &chunk, 0, Instruction::unary(op, 0));
        assert_eq!(fault(r), "Global name at index 0 is not a string");
        let (r, _) = exec(&mut vm, &chunk, 0, Instruction::unary(op, 1));
        assert_eq!(fault(r), "No global at index 1");
        let (r, _) = exec(&mut vm, &chunk, 0, Instruction::simple(op));
        assert_eq!(fault(r), format!("Operand 1 missing on instruction {}", op.name()));
    }
}

#[test]
fn locals_are_stack_slots_counted_from_the_bottom() {
    let mut vm = vm_with(vec![num(10.0), num(20.0), num(30.0)]);
    let chunk = chunk_with(vec![], 0);
    let (r, _) = exec(&mut vm, &chunk, 0, Instruction::unary(OpCode::GetLocal, 1));
    assert!(matches!(r, Ok(Effect::Continue)));
    assert_eq!(stack_of(&vm), vec!["10", "20", "30", "20"]);
    let (r, _) = exec(&mut vm, &chunk, 0, Instruction::unary(OpCode::SetLocal, 0));
    assert!(matches!(r, Ok(Effect::Continue)));
    assert_eq!(stack_of(&vm), vec!["20", "20", "30", "20"]);
    let (r, _) = exec(&mut vm, &chunk, 0, Instruction::unary(OpCode::GetLocal, 4));
    assert_eq!(fault(r), "Stack overflow");
    let (r, _) = exec(&mut vm, &chunk, 0, Instruction::unary(OpCode::SetLocal, 4));
    assert_eq!(fault(r), "Stack overflow");
    let (r, _) = exec(&mut vm, &chunk, 0, Instruction::simple(OpCode::GetLocal));
    assert_eq!(fault(r), "Operand 1 missing on instruction GetLocal");
    let mut vm = Vm::new(false);
    let (r, _) = exec(&mut vm, &chunk, 0, Instruction::unary(OpCode::SetLocal, 0));
    assert_eq!(fault(r), "Stack underflow");
}

#[test]
fn a_slot_holds_its_last_assignment_while_values_come_and_go_above_it() {
    let mut vm = vm_with(vec![num(1.0), num(2.0), num(42.0)]);
    let chunk = chunk_with(vec![text("g"), num(8.0)], 0);
    exec(&mut vm, &chunk, 0, Instruction::unary(OpCode::SetLocal, 1)).0.unwrap();
    let program = vec![
        Instruction::simple(OpCode::Pop),
        Instruction::unary(OpCode::Constant, 1),
        Instruction::unary(OpCode::Constant, 1),
        Instruction::simple(OpCode::Add),
        Instruction::simple(OpCode::Negate),
        Instruction::unary(OpCode::DefineGlobal, 0),
        Instruction::unary(OpCode::GetGlobal, 0),
        Instruction::unary(OpCode::SetLocal, 0),
        Instruction::simple(OpCode::True),
        Instruction::simple(OpCode::Not),
        Instruction::simple(OpCode::Pop),
        Instruction::simple(OpCode::Pop),
    ];
    for ins in program {
        exec(&mut vm, &chunk, 0, ins).0.unwrap();
        assert!(vm.stack_len() >= 2);
        assert!(vm.stack_value(1).unwrap().equals(&num(42.0)));
    }
    assert_eq!(stack_of(&vm), vec!["-16", "42"]);
    let (r, _) = exec(&mut vm, &chunk, 0, Instruction::unary(OpCode::GetLocal, 1));
    r.unwrap();
    assert_eq!(stack_of(&vm), vec!["-16", "42", "42"]);
}

#[test]
fn assignments_keep_the_stack_height_and_definitions_lower_it() {
    let chunk = chunk_with(vec![text("g")], 0);
    let mut vm = vm_with(vec![num(1.0), num(2.0), num(3.0)]);
    exec(&mut vm, &chunk, 0, Instruction::unary(OpCode::DefineGlobal, 0)).0.unwrap();
    assert_eq!(stack_of(&vm), vec!["1", "2"]);
    exec(&mut vm, &chunk, 0, Instruction::unary(OpCode::SetGlobal, 0)).0.unwrap();
    assert_eq!(stack_of(&vm), vec!["1", "2"]);
    exec(&mut vm, &chunk, 0, Instruction::unary(OpCode::SetLocal, 0)).0.unwrap();
    assert_eq!(stack_of(&vm), vec!["2", "2"]);
}

#[test]
fn jump_moves_the_pointer_forward() {
    let chunk = chunk_with(vec![], 600);
    let mut vm = Vm::new(false);
    let (r, ip) = exec(&mut vm, &chunk, 10, Instruction::binary(OpCode::Jump, 2, 3));
    assert!(matches!(r, Ok(Effect::Continue)));
    assert_eq!(ip, 10 + 2 * 256 + 3);
    let (r, ip) = exec(&mut vm, &chunk, 600, Instruction::binary(OpCode::Jump, 0, 0));
    assert!(matches!(r, Ok(Effect::Continue)));
    assert_eq!(ip, 600);
    let (r, ip) = exec(&mut vm, &chunk, 600, Instruction::binary(OpCode::Jump, 0, 1));
    assert_eq!(fault(r), "Jump beyond the end of the code");
    assert_eq!(ip, 600);
    let (r, _) = exec(&mut vm, &chunk, 0, Instruction::unary(OpCode::Jump, 1));
    assert_eq!(fault(r), "Operand 2 missing on instruction Jump");
    let (r, _) = exec(&mut vm, &chunk, 0, Instruction::simple(OpCode::Jump));
    assert_eq!(fault(r), "Operand 1 missing on instruction Jump");
}

#[test]
fn jump_if_false_looks_at_the_top_without_taking_it() {
    let chunk = chunk_with(vec![], 20);
    let mut vm = vm_with(vec![Value::Boolean(false)]);
    let (r, ip) = exec(&mut vm, &chunk, 4, Instruction::binary(OpCode::JumpIfFalse, 0, 5));
    assert!(matches!(r, Ok(Effect::Continue)));
    assert_eq!(ip, 9);
    assert_eq!(stack_of(&vm), vec!["false"]);
    let mut vm = vm_with(vec![Value::Boolean(true)]);
    let (r, ip) = exec(&mut vm, &chunk, 4, Instruction::binary(OpCode::JumpIfFalse, 0, 5));
    assert!(matches!(r, Ok(Effect::Continue)));
    assert_eq!(ip, 4);
    assert_eq!(stack_of(&vm), vec!["true"]);
    // A true condition does not look at the distance.
    let (r, ip) = exec(&mut vm, &chunk, 4, Instruction::binary(OpCode::JumpIfFalse, 255, 255));
    assert!(matches!(r, Ok(Effect::Continue)));
    assert_eq!(ip, 4);
    let mut vm = vm_with(vec![Value::Nil]);
    let (r, _) = exec(&mut vm, &chunk, 4, Instruction::binary(OpCode::JumpIfFalse, 0, 5));
    assert_eq!(fault(r), "Can't jump. Non boolean value found on stack");
    let mut vm = Vm::new(false);
    let (r, _) = exec(&mut vm, &chunk, 4, Instruction::binary(OpCode::JumpIfFalse, 0, 5));
    assert_eq!(fault(r), "Stack underflow");
    let mut vm = vm_with(vec![Value::Boolean(false)]);
    let (r, _) = exec(&mut vm, &chunk, 4, Instruction::binary(OpCode::JumpIfFalse, 0, 17));
    assert_eq!(fault(r), "Jump beyond the end of the code");
}

#[test]
fn loop_moves_the_pointer_back() {
    let chunk = chunk_with(vec![], 600);
    let mut vm = Vm::new(false);
    let (r, ip) = exec(&mut vm, &chunk, 520, Instruction::binary(OpCode::Loop, 2, 8));
    assert!(matches!(r, Ok(Effect::Continue)));
    assert_eq!(ip, 0);
    let (r, ip) = exec(&mut vm, &chunk, 519, Instruction::binary(OpCode::Loop, 2, 8));
    assert_eq!(fault(r), "Loop before the start of the code");
    assert_eq!(ip, 519);
}

#[test]
fn faults_carry_instruction_offset_and_line() {
    let mut vm = vm_with(vec![text("x")]);
    let chunk = chunk_with(vec![], 0);
    let ins = Instruction::simple(OpCode::Negate);
    let (r, _) = exec(&mut vm, &chunk, 0, ins);
    let e = r.unwrap_err();
    assert_eq!(e.details, Some((ins, 7, 3)));
    assert_eq!(
        e.to_text(),
        "[source line 3, byte code offset 7, inst 'Negate'] Attempt to negate a non-numeric value"
    );
}

#[test]
fn vm_error_text() {
    let e = VmError::from_msg("Failed to read code byte".to_string());
    assert_eq!(e.details, None);
    assert_eq!(e.to_text(), "Failed to read code byte");
    let e = VmError::new("boom".to_string(), (Instruction::binary(OpCode::Jump, 1, 2), 40, 12));
    assert_eq!(e.msg, "boom");
    assert_eq!(e.to_text(), "[source line 12, byte code offset 40, inst 'Jump 1 2'] boom");
}

#[test]
fn step_reads_and_executes() {
    let mut writer = InstructionWriter::with_new_chunk();
    writer.write_const(num(2.0), 1).unwrap();
    writer.write_const(num(3.0), 1).unwrap();
    writer.write_op_code(OpCode::Multiply, 1);
    writer.write_op_code(OpCode::Print, 1);
    let chunk = writer.to_chunk();
    let mut vm = Vm::new(false);
    let mut reader = InstructionReader::new(&chunk);
    assert!(matches!(vm.step(&mut reader, &arith), Ok(Effect::Continue)));
    assert!(matches!(vm.step(&mut reader, &arith), Ok(Effect::Continue)));
    assert!(matches!(vm.step(&mut reader, &arith), Ok(Effect::Continue)));
    match vm.step(&mut reader, &arith) {
        Ok(Effect::Print(value)) => assert!(value.equals(&num(6.0))),
        other => panic!("unexpected {:?}", other),
    }
    // At the end of the code the program ends.
    assert!(matches!(vm.step(&mut reader, &arith), Ok(Effect::Halt)));
    assert!(matches!(vm.step(&mut reader, &arith), Ok(Effect::Halt)));
    assert_eq!(vm.stack_len(), 0);
}

#[test]
fn step_fails_on_code_that_cannot_be_read() {
    let mut chunk = Chunk::new();
    chunk.write(200, 1);
    let mut vm = Vm::new(false);
    let mut reader = InstructionReader::new(&chunk);
    let e = vm.step(&mut reader, &arith).unwrap_err();
    assert_eq!(e.msg, "Failed to read code byte");
    assert_eq!(e.details, None);
}
