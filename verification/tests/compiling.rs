use lox_vm::chunk::Chunk;
use lox_vm::compiler::{CompileError, CompileErrorCollection, Compiler};
use lox_vm::disassembler::Disassembler;
use lox_vm::instruction::{Instruction, InstructionReader, OpCode};
use lox_vm::scanner::ScanError;
use lox_vm::value::{Number, Value};

fn parse_number(text: &str) -> Option<Number> {
    text.parse::<f64>().ok().map(|x| Number::from_bits(x.to_bits()))
}

fn number_text(n: Number) -> String {
    format!("{}", f64::from_bits(n.to_bits()))
}

fn compile(source: &str) -> Chunk {
    match Compiler::new(source.to_string()).compile(&parse_number) {
        Ok(chunk) => chunk,
        Err(errors) => panic!("compile errors: {}", errors.to_text()),
    }
}

fn errors_of(source: &str) -> Vec<String> {
    match Compiler::new(source.to_string()).compile(&parse_number) {
        Ok(_) => panic!("compiled"),
        Err(errors) => errors.errors.iter().map(|e| e.to_text()).collect(),
    }
}

fn code_of(chunk: &Chunk) -> Vec<u8> {
    (0..chunk.len()).map(|i| chunk.read(i).unwrap()).collect()
}

fn program_of(chunk: &Chunk) -> Vec<Instruction> {
    let mut reader = InstructionReader::new(chunk);
    let mut program = Vec::new();
    while let Some((instruction, _, _)) = reader.read_next().unwrap() {
        program.push(instruction);
    }
    program
}

fn constants_of(chunk: &Chunk) -> Vec<String> {
    (0..chunk.constants_len())
        .map(|i| chunk.get_constant(i).unwrap().to_text(&number_text))
        .collect()
}

fn simple(op: OpCode) -> Instruction {
    Instruction::simple(op)
}

fn unary(op: OpCode, operand: u8) -> Instruction {
    Instruction::unary(op, operand)
}

fn binary(op: OpCode, a: u8, b: u8) -> Instruction {
    Instruction::binary(op, a, b)
}

#[test]
fn empty_source_compiles_to_return() {
    let chunk = compile("");
    assert_eq!(code_of(&chunk), vec![OpCode::Return.to_byte()]);
    assert_eq!(chunk.get_src_line_number(0), Ok(1));
    assert_eq!(chunk.constants_len(), 0);
    assert_eq!(program_of(&compile("  // nothing\n")), vec![simple(OpCode::Return)]);
}

#[test]
fn arithmetic_follows_precedence() {
    let chunk = compile("print 1 + 2 * 3;");
    assert_eq!(
        program_of(&chunk),
        vec![
            unary(OpCode::Constant, 0),
            unary(OpCode::Constant, 1),
            unary(OpCode::Constant, 2),
            simple(OpCode::Multiply),
            simple(OpCode::Add),
            simple(OpCode::Print),
            simple(OpCode::Return),
        ]
    );
    assert_eq!(constants_of(&chunk), vec!["1", "2", "3"]);
    assert_eq!(code_of(&chunk), vec![0, 0, 0, 1, 0, 2, 5, 3, 14, 1]);
}

#[test]
fn operators_of_one_precedence_group_from_the_left() {
    assert_eq!(
        program_of(&compile("1 - 2 - 3;")),
        vec![
            unary(OpCode::Constant, 0),
            unary(OpCode::Constant, 1),
            simple(OpCode::Subtract),
            unary(OpCode::Constant, 2),
            simple(OpCode::Subtract),
            simple(OpCode::Pop),
            simple(OpCode::Return),
        ]
    );
}

#[test]
fn grouping_overrides_precedence() {
    assert_eq!(
        program_of(&compile("(1 + 2) * 3;")),
        vec![
            unary(OpCode::Constant, 0),
            unary(OpCode::Constant, 1),
            simple(OpCode::Add),
            unary(OpCode::Constant, 2),
            simple(OpCode::Multiply),
            simple(OpCode::Pop),
            simple(OpCode::Return),
        ]
    );
}

#[test]
fn unary_operators_follow_their_operand() {
    assert_eq!(
        program_of(&compile("-1; !true;")),
        vec![
            unary(OpCode::Constant, 0),
            simple(OpCode::Negate),
            simple(OpCode::Pop),
            simple(OpCode::True),
            simple(OpCode::Not),
            simple(OpCode::Pop),
            simple(OpCode::Return),
        ]
    );
}

#[test]
fn compound_comparisons_are_lowered() {
    let lowered = |source: &str| -> Vec<Instruction> {
        let program = program_of(&compile(source));
        program[2..program.len() - 2].to_vec()
    };
    assert_eq!(lowered("1 == 2;"), vec![simple(OpCode::Equal)]);
    assert_eq!(lowered("1 != 2;"), vec![simple(OpCode::Equal), simple(OpCode::Not)]);
    assert_eq!(lowered("1 < 2;"), vec![simple(OpCode::Less)]);
    assert_eq!(lowered("1 <= 2;"), vec![simple(OpCode::Greater), simple(OpCode::Not)]);
    assert_eq!(lowered("1 > 2;"), vec![simple(OpCode::Greater)]);
    assert_eq!(lowered("1 >= 2;"), vec![simple(OpCode::Less), simple(OpCode::Not)]);
    assert_eq!(lowered("1 + 2;"), vec![simple(OpCode::Add)]);
    assert_eq!(lowered("1 / 2;"), vec![simple(OpCode::Divide)]);
}

#[test]
fn literals_compile_to_their_op_code() {
    assert_eq!(
        program_of(&compile("nil; true; false;")),
        vec![
            simple(OpCode::Nil),
            simple(OpCode::Pop),
            simple(OpCode::True),
            simple(OpCode::Pop),
            simple(OpCode::False),
            simple(OpCode::Pop),
            simple(OpCode::Return),
        ]
    );
}

#[test]
fn strings_lose_their_quotes() {
    let chunk = compile("print \"héllo\" + \"\";");
    assert_eq!(constants_of(&chunk), vec!["héllo", ""]);
    assert!(chunk.get_constant(0).unwrap().equals(&Value::String("héllo".to_string())));
}

#[test]
fn numbers_are_what_the_caller_makes_of_their_text() {
    let chunk = compile("12.5; 007;");
    match chunk.get_constant(0).unwrap() {
        Value::Number(n) => assert_eq!(n.to_bits(), 12.5f64.to_bits()),
        other => panic!("unexpected constant {:?}", other),
    }
    assert_eq!(constants_of(&chunk), vec!["12.5", "7"]);

    let refuse = |_: &str| -> Option<Number> { None };
    match Compiler::new("print 12;".to_string()).compile(&refuse) {
        Ok(_) => panic!("compiled"),
        Err(errors) => assert_eq!(
            errors.to_text(),
            "[line 1] Compile error: ';' - Failed to parse '12' as number\n"
        ),
    }
}

#[test]
fn globals_are_addressed_by_the_constant_of_their_name() {
    let chunk = compile("var a = 1; var b; a = b;");
    assert_eq!(constants_of(&chunk), vec!["a", "1", "b", "a", "b"]);
    assert_eq!(
        program_of(&chunk),
        vec![
            unary(OpCode::Constant, 1),
            unary(OpCode::DefineGlobal, 0),
            simple(OpCode::Nil),
            unary(OpCode::DefineGlobal, 2),
            unary(OpCode::GetGlobal, 4),
            unary(OpCode::SetGlobal, 3),
            simple(OpCode::Pop),
            simple(OpCode::Return),
        ]
    );
}

#[test]
fn locals_are_addressed_by_slot_and_popped_at_scope_end() {
    let chunk = compile("{ var a = 1; var b = 2; { var c = a; b = c; } print b; }");
    assert_eq!(constants_of(&chunk), vec!["1", "2"]);
    assert_eq!(
        program_of(&chunk),
        vec![
            unary(OpCode::Constant, 0),
            unary(OpCode::Constant, 1),
            unary(OpCode::GetLocal, 0),
            unary(OpCode::GetLocal, 2),
            unary(OpCode::SetLocal, 1),
            simple(OpCode::Pop),
            simple(OpCode::Pop),
            unary(OpCode::GetLocal, 1),
            simple(OpCode::Print),
            simple(OpCode::Pop),
            simple(OpCode::Pop),
            simple(OpCode::Return),
        ]
    );
}

#[test]
fn the_local_declared_last_shadows_earlier_ones() {
    let chunk = compile("{ var a = 1; { var a = 2; print a; } print a; }");
    assert_eq!(
        program_of(&chunk),
        vec![
            unary(OpCode::Constant, 0),
            unary(OpCode::Constant, 1),
            unary(OpCode::GetLocal, 1),
            simple(OpCode::Print),
            simple(OpCode::Pop),
            unary(OpCode::GetLocal, 0),
            simple(OpCode::Print),
            simple(OpCode::Pop),
            simple(OpCode::Return),
        ]
    );
}

#[test]
fn a_name_that_is_no_local_is_a_global_inside_a_block() {
    let chunk = compile("var g = 1; { print g; }");
    assert_eq!(
        program_of(&chunk),
        vec![
            unary(OpCode::Constant, 1),
            unary(OpCode::DefineGlobal, 0),
            unary(OpCode::GetGlobal, 2),
            simple(OpCode::Print),
            simple(OpCode::Return),
        ]
    );
}

#[test]
fn if_jumps_over_its_branches() {
    let chunk = compile("if (true) print 1; else print 2;");
    assert_eq!(
        program_of(&chunk),
        vec![
            simple(OpCode::True),
            binary(OpCode::JumpIfFalse, 0, 7),
            simple(OpCode::Pop),
            unary(OpCode::Constant, 0),
            simple(OpCode::Print),
            binary(OpCode::Jump, 0, 4),
            simple(OpCode::Pop),
            unary(OpCode::Constant, 1),
            simple(OpCode::Print),
            simple(OpCode::Return),
        ]
    );
    let chunk = compile("if (false) nil;");
    assert_eq!(
        program_of(&chunk),
        vec![
            simple(OpCode::False),
            binary(OpCode::JumpIfFalse, 0, 6),
            simple(OpCode::Pop),
            simple(OpCode::Nil),
            simple(OpCode::Pop),
            binary(OpCode::Jump, 0, 1),
            simple(OpCode::Pop),
            simple(OpCode::Return),
        ]
    );
}

#[test]
fn while_jumps_back_to_its_condition() {
    let chunk = compile("nil; while (false) nil;");
    assert_eq!(
        program_of(&chunk),
        vec![
            simple(OpCode::Nil),
            simple(OpCode::Pop),
            simple(OpCode::False),
            binary(OpCode::JumpIfFalse, 0, 6),
            simple(OpCode::Pop),
            simple(OpCode::Nil),
            simple(OpCode::Pop),
            binary(OpCode::Loop, 0, 10),
            simple(OpCode::Pop),
            simple(OpCode::Return),
        ]
    );
}

#[test]
fn or_takes_in_the_and_to_its_right() {
    // `a or b and c` is `a or (b and c)`: the jumps of the `and` lie inside
    // the right operand of the `or`.
    assert_eq!(
        program_of(&compile("true or false and nil;")),
        vec![
            simple(OpCode::True),
            binary(OpCode::JumpIfFalse, 0, 3),
            binary(OpCode::Jump, 0, 7),
            simple(OpCode::Pop),
            simple(OpCode::False),
            binary(OpCode::JumpIfFalse, 0, 2),
            simple(OpCode::Pop),
            simple(OpCode::Nil),
            simple(OpCode::Pop),
            simple(OpCode::Return),
        ]
    );
    // `a and b or c` is `(a and b) or c`: the `and` is over before the `or`
    // starts.
    assert_eq!(
        program_of(&compile("true and false or nil;")),
        vec![
            simple(OpCode::True),
            binary(OpCode::JumpIfFalse, 0, 2),
            simple(OpCode::Pop),
            simple(OpCode::False),
            binary(OpCode::JumpIfFalse, 0, 3),
            binary(OpCode::Jump, 0, 2),
            simple(OpCode::Pop),
            simple(OpCode::Nil),
            simple(OpCode::Pop),
            simple(OpCode::Return),
        ]
    );
}

#[test]
fn a_bang_between_operands_ends_the_expression() {
    assert_eq!(
        errors_of("print 1 ! 2;"),
        vec!["[line 1] Compile error: '!' - Expected ';' after value."]
    );
}

#[test]
fn listing_remembers_the_line_of_its_last_instruction() {
    let first = compile("print 1;\nprint 2;");
    let second = compile("\nprint 3;");
    let mut disassembler = Disassembler::new();
    disassembler.disassemble(&first, "first", &number_text).unwrap();
    let lines = disassembler.disassemble(&second, "second", &number_text).unwrap();
    // The first listing ended with the `Return` from line 2, as the second one starts.
    assert_eq!(lines[1], "0000    | Constant 0000 '3'");
    let lines = Disassembler::new().disassemble(&second, "second", &number_text).unwrap();
    assert_eq!(lines[1], "0000    2 Constant 0000 '3'");
}

#[test]
fn and_and_or_skip_their_right_operand() {
    assert_eq!(
        program_of(&compile("true and false;")),
        vec![
            simple(OpCode::True),
            binary(OpCode::JumpIfFalse, 0, 2),
            simple(OpCode::Pop),
            simple(OpCode::False),
            simple(OpCode::Pop),
            simple(OpCode::Return),
        ]
    );
    assert_eq!(
        program_of(&compile("true or false;")),
        vec![
            simple(OpCode::True),
            binary(OpCode::JumpIfFalse, 0, 3),
            binary(OpCode::Jump, 0, 2),
            simple(OpCode::Pop),
            simple(OpCode::False),
            simple(OpCode::Pop),
            simple(OpCode::Return),
        ]
    );
}

#[test]
fn every_byte_has_the_line_of_its_token() {
    let chunk = compile("print\n1\n+\n2;\n");
    let lines: Vec<i32> =
        (0..chunk.len()).map(|i| chunk.get_src_line_number(i).unwrap()).collect();
    // Constant 1, Constant 2, Add, Print, Return.
    assert_eq!(lines, vec![2, 2, 4, 4, 3, 4, 5]);
    assert_eq!(chunk.len(), lines.len());
}

#[test]
fn jumps_of_compiled_code_land_on_instructions() {
    let source = "var i = 0; while (i < 10) { if (i == 3 or i == 5 and true) { print i; } \
                  else { var j = i; while (j > 0) j = j - 1; } i = i + 1; }";
    let chunk = compile(source);
    let mut reader = InstructionReader::new(&chunk);
    let mut starts = Vec::new();
    let mut jumps = Vec::new();
    while let Some((instruction, offset, _)) = reader.read_next().unwrap() {
        starts.push(offset);
        let distance = || {
            instruction.operand1.unwrap() as usize * 256 + instruction.operand2.unwrap() as usize
        };
        match instruction.op_code {
            OpCode::Jump | OpCode::JumpIfFalse => {
                // No jump is left as it was written, with its target still open.
                assert_ne!((instruction.operand1, instruction.operand2), (Some(0xff), Some(0xff)));
                jumps.push(offset + 3 + distance())
            }
            OpCode::Loop => jumps.push(offset + 3 - distance()),
            _ => {}
        }
    }
    starts.push(chunk.len());
    assert_eq!(jumps.len(), 9);
    for target in jumps {
        assert!(starts.contains(&target), "jump into the middle of an instruction: {}", target);
    }
}

#[test]
fn chunk_holds_256_constants_and_no_more() {
    let fits: String = (0..256).map(|i| format!("{};", i)).collect();
    let chunk = compile(&fits);
    assert_eq!(chunk.constants_len(), 256);
    let too_many: String = (0..257).map(|i| format!("{};", i)).collect();
    assert_eq!(
        errors_of(&too_many),
        vec!["[line 1] Compile error: ';' - Too many constants in chunk"]
    );
    let names: String = (0..257).map(|i| format!("v{};", i)).collect();
    assert_eq!(
        errors_of(&names),
        vec!["[line 1] Compile error: ';' - Too many constants in chunk"]
    );
}

#[test]
fn a_block_holds_256_locals_and_no_more() {
    let declarations =
        |count: usize| -> String { (0..count).map(|i| format!("var v{};", i)).collect() };
    let chunk = compile(&format!("{{ {} print v255; }}", declarations(256)));
    let program = program_of(&chunk);
    assert!(program.contains(&unary(OpCode::GetLocal, 255)));
    assert_eq!(program.iter().filter(|i| i.op_code == OpCode::Pop).count(), 256);
    let errors = errors_of(&format!("{{ {} }}", declarations(257)));
    assert_eq!(errors, vec!["[line 1] Compile error: ';' - Too many locals"]);
}

#[test]
fn jump_over_more_than_65535_bytes_is_an_error() {
    // Each `nil;` compiles to two bytes.
    let body: String = (0..32768).map(|_| "nil;").collect();
    let errors = errors_of(&format!("if (true) {{ {} }}", body));
    assert_eq!(errors, vec!["[line 1] Compile error: '' - Jump too long (65540)"]);
    let errors = errors_of(&format!("while (true) {{ {} }}", body));
    assert_eq!(errors, vec!["[line 1] Compile error: '' - Loop body too big (65541)"]);
    let body: String = (0..32000).map(|_| "nil;").collect();
    compile(&format!("if (true) {{ {} }}", body));
    compile(&format!("while (true) {{ {} }}", body));
}

#[test]
fn missing_semicolon_is_reported_at_the_token_found() {
    assert_eq!(
        errors_of("print 1"),
        vec!["[line 1] Compile error: '' - Expected ';' after value."]
    );
    assert_eq!(
        errors_of("1 + 2\nprint 3;"),
        vec!["[line 2] Compile error: 'print' - Expected ';' after expression."]
    );
    assert_eq!(
        errors_of("var a = 1 var b;"),
        vec!["[line 1] Compile error: 'var' - Expected ';' after variable declaration."]
    );
}

#[test]
fn missing_expression_is_reported() {
    assert_eq!(errors_of("print ;"), vec!["[line 1] Compile error: '' - Expected expression"]);
    assert_eq!(errors_of("1 +;"), vec!["[line 1] Compile error: '' - Expected expression"]);
    assert_eq!(errors_of(")"), vec!["[line 1] Compile error: '' - Expected expression"]);
}

#[test]
fn missing_delimiters_are_reported() {
    assert_eq!(
        errors_of("if true) nil;"),
        vec!["[line 1] Compile error: 'true' - Expected '(' after 'if'."]
    );
    assert_eq!(
        errors_of("while (true nil;"),
        vec!["[line 1] Compile error: 'nil' - Expected ')' after condition"]
    );
    assert_eq!(errors_of("(1;"), vec!["[line 1] Compile error: ';' - Expected ')'"]);
    assert_eq!(
        errors_of("{ nil;"),
        vec!["[line 1] Compile error: '' - Expected '}' after block"]
    );
    assert_eq!(
        errors_of("var 1;"),
        vec!["[line 1] Compile error: '1' - Expected variable name"]
    );
}

#[test]
fn assignment_needs_a_target() {
    assert_eq!(
        errors_of("1 = 2;"),
        vec!["[line 1] Compile error: '2' - Invalid assignment target"]
    );
    assert_eq!(
        errors_of("a + b = 2;"),
        vec!["[line 1] Compile error: '2' - Invalid assignment target"]
    );
    compile("a = b = 2;");
}

#[test]
fn uninitialized_local_cannot_be_used() {
    assert_eq!(
        errors_of("{ var a = a; }"),
        vec!["[line 1] Compile error: ';' - Use of uninitialized local variable a"]
    );
    // At the top level the name is a global, and a global may be read at any time.
    compile("var a = a;");
}

#[test]
fn errors_after_the_first_of_a_statement_are_suppressed() {
    assert_eq!(
        errors_of("print 1 2 3 4\nprint 5;"),
        vec!["[line 1] Compile error: '2' - Expected ';' after value."]
    );
}

#[test]
fn errors_of_several_statements_are_all_reported() {
    assert_eq!(
        errors_of("print 1\nprint 2;\nvar 3;\nprint 4;"),
        vec![
            "[line 2] Compile error: 'print' - Expected ';' after value.",
            "[line 3] Compile error: '3' - Expected variable name",
        ]
    );
}

#[test]
fn scan_errors_are_compile_errors() {
    assert_eq!(errors_of("print 1 # 2;"), vec!["[1]: Unexpected character."]);
    assert_eq!(errors_of("print \"abc;\n"), vec!["[2]: Unterminated string."]);
    match Compiler::new("@".to_string()).compile(&parse_number) {
        Err(CompileErrorCollection { errors }) => match &errors[0] {
            CompileError::Scan(ScanError { line, message }) => {
                assert_eq!(*line, 1);
                assert_eq!(message, "Unexpected character.");
            }
            other => panic!("unexpected error {:?}", other),
        },
        Ok(_) => panic!("compiled"),
    }
}

#[test]
fn no_chunk_is_returned_when_an_error_was_recorded() {
    for source in ["print 1", "@", "{", "var", "1 = 1;", "if", "while (", "\"", "print 1; )"] {
        match Compiler::new(source.to_string()).compile(&parse_number) {
            Ok(_) => panic!("{:?} compiled", source),
            Err(errors) => assert!(!errors.errors.is_empty()),
        }
    }
}

#[test]
fn compile_error_text() {
    let e = CompileError::parse_error("Expected ')'".to_string(), "x".to_string(), 3);
    assert_eq!(e.to_text(), "[line 3] Compile error: 'x' - Expected ')'");
    assert_eq!(e.clone().to_text(), e.to_text());
    let s = CompileError::Scan(ScanError { line: 4, message: "Unterminated string.".to_string() });
    assert_eq!(s.to_text(), "[4]: Unterminated string.");
    let collection = CompileErrorCollection { errors: vec![e, s] };
    assert_eq!(
        collection.to_text(),
        "[line 3] Compile error: 'x' - Expected ')'\n[4]: Unterminated string.\n"
    );
    assert_eq!(CompileErrorCollection { errors: vec![] }.to_text(), "");
}

#[test]
fn listing_of_a_compiled_chunk() {
    let chunk = compile("var a = 1.5;\n{ var b = \"s\"; if (a == b) print b; }\n");
    let mut disassembler = Disassembler::new();
    let lines = disassembler.disassemble(&chunk, "Chunk", &number_text).unwrap();
    assert_eq!(
        lines,
        vec![
            "== Chunk ==",
            "0000    1 Constant 0001 '1.5'",
            "0002    | DefineGlobal 0000 'a'",
            "0004    2 Constant 0002 's'",
            "0006    | GetGlobal 0003 'a'",
            "0008    | GetLocal 0000 'Stack[0]'",
            "0010    | Equal",
            "0011    | JumpIfFalse 0000 0007",
            "0014    | Pop",
            "0015    | GetLocal 0000 'Stack[0]'",
            "0017    | Print",
            "0018    | Jump 0000 0001",
            "0021    | Pop",
            "0022    | Pop",
            "0023    3 Return",
        ]
    );
}

#[test]
fn listing_reassembles_to_the_code() {
    let source = "var i = 0; while (i < 3) { print i; i = i + 1; } \
                  if (i >= 3 and true or false) print \"done\"; else print -i;";
    let chunk = compile(source);
    let mut disassembler = Disassembler::new();
    let lines = disassembler.disassemble(&chunk, "Chunk", &number_text).unwrap();
    let mut bytes = Vec::new();
    for line in &lines[1..] {
        let mut words = line[10..].split(' ');
        let name = words.next().unwrap();
        let op = (0..24u8).map(|b| OpCode::from_byte(b).unwrap()).find(|op| op.name() == name);
        let op = op.unwrap();
        bytes.push(op.to_byte());
        for _ in 0..op.operand_count() {
            bytes.push(words.next().unwrap().parse::<u8>().unwrap());
        }
    }
    assert_eq!(bytes, code_of(&chunk));
}

#[test]
fn listing_fails_on_code_that_is_no_program() {
    let number_text = |_: Number| String::new();
    let mut chunk = Chunk::new();
    chunk.write(OpCode::Constant.to_byte(), 1);
    chunk.write(0, 1);
    let mut disassembler = Disassembler::new();
    assert_eq!(
        disassembler.disassemble(&chunk, "c", &number_text),
        Err("Index 0 is out range".to_string())
    );
    let mut chunk = Chunk::new();
    chunk.write(200, 1);
    assert_eq!(
        Disassembler::new().disassemble(&chunk, "c", &number_text),
        Err("Failed to disassemble instruction".to_string())
    );
    let mut chunk = Chunk::new();
    chunk.write(OpCode::Jump.to_byte(), 1);
    assert_eq!(
        Disassembler::new().disassemble(&chunk, "c", &number_text),
        Err("Failed to disassemble instruction".to_string())
    );
    assert_eq!(
        Disassembler::new().disassemble(&Chunk::new(), "empty", &number_text),
        Ok(vec!["== empty ==".to_string()])
    );
}

#[test]
fn listing_of_single_instructions() {
    let mut chunk = Chunk::new();
    chunk.add_constant(Value::Nil).unwrap();
    let reader = InstructionReader::new(&chunk);
    let mut disassembler = Disassembler::new();
    let mut list = |ins: Instruction, offset: usize, line: i32| {
        disassembler.disassemble_instruction(&reader, &ins, offset, line, &number_text)
    };
    assert_eq!(list(simple(OpCode::Add), 3, 12), Ok("0003   12 Add".to_string()));
    assert_eq!(list(simple(OpCode::Add), 4, 12), Ok("0004    | Add".to_string()));
    assert_eq!(list(simple(OpCode::Pop), 12345, 13), Ok("12345   13 Pop".to_string()));
    assert_eq!(list(simple(OpCode::Pop), 0, 12345), Ok("0000 12345 Pop".to_string()));
    assert_eq!(list(simple(OpCode::Pop), 0, -5), Ok("0000   -5 Pop".to_string()));
    assert_eq!(
        list(unary(OpCode::Constant, 0), 1, 1),
        Ok("0001    1 Constant 0000 'nil'".to_string())
    );
    assert_eq!(
        list(unary(OpCode::SetLocal, 200), 1, 1),
        Ok("0001    | SetLocal 0200 'Stack[200]'".to_string())
    );
    assert_eq!(
        list(binary(OpCode::Loop, 1, 20), 1, 2),
        Ok("0001    2 Loop 0001 0020".to_string())
    );
    assert_eq!(list(unary(OpCode::Constant, 1), 1, 2), Err("Index 1 is out range".to_string()));
    assert_eq!(
        list(simple(OpCode::GetGlobal), 1, 2),
        Err("Opcode GetGlobal has no operand".to_string())
    );
    assert_eq!(
        list(unary(OpCode::Jump, 1), 1, 2),
        Err("Opcode Jump has one or both operands missing".to_string())
    );
    assert_eq!(Disassembler::title("Chunk"), "== Chunk ==");
}
