use lox_vm::chunk::{Chunk, ChunkError};
use lox_vm::instruction::{
    Instruction, InstructionReader, InstructionWriter, OpCode, ReadError, WriteError,
};
use lox_vm::value::{Number, Value};

fn all_op_codes() -> Vec<OpCode> {
    vec![
        OpCode::Constant,
        OpCode::Return,
        OpCode::Negate,
        OpCode::Add,
        OpCode::Subtract,
        OpCode::Multiply,
        OpCode::Divide,
        OpCode::Nil,
        OpCode::True,
        OpCode::False,
        OpCode::Not,
        OpCode::Equal,
        OpCode::Greater,
        OpCode::Less,
        OpCode::Print,
        OpCode::Pop,
        OpCode::DefineGlobal,
        OpCode::GetGlobal,
        OpCode::SetGlobal,
        OpCode::GetLocal,
        OpCode::SetLocal,
        OpCode::Jump,
        OpCode::JumpIfFalse,
        OpCode::Loop,
    ]
}

fn code_of(chunk: &Chunk) -> Vec<u8> {
    (0..chunk.len()).map(|i| chunk.read(i).unwrap()).collect()
}

fn lines_of(chunk: &Chunk) -> Vec<i32> {
    (0..chunk.len()).map(|i| chunk.get_src_line_number(i).unwrap()).collect()
}

#[test]
fn there_are_24_op_codes_numbered_in_order() {
    let ops = all_op_codes();
    assert_eq!(ops.len(), 24);
    for (i, op) in ops.iter().enumerate() {
        assert_eq!(op.to_byte(), i as u8);
        assert_eq!(OpCode::from_byte(i as u8), Ok(*op));
    }
}

#[test]
fn bytes_above_loop_are_no_op_codes() {
    for byte in 24..=255u8 {
        assert_eq!(OpCode::from_byte(byte), Err(ReadError::UnknownOpcode(byte)));
    }
}

#[test]
fn op_codes_have_fixed_arity() {
    for op in all_op_codes() {
        let expected = match op {
            OpCode::Constant
            | OpCode::DefineGlobal
            | OpCode::GetGlobal
            | OpCode::SetGlobal
            | OpCode::GetLocal
            | OpCode::SetLocal => 1,
            OpCode::Jump | OpCode::JumpIfFalse | OpCode::Loop => 2,
            _ => 0,
        };
        assert_eq!(op.operand_count(), expected);
    }
}

#[test]
fn op_code_names() {
    assert_eq!(OpCode::Constant.name(), "Constant");
    assert_eq!(OpCode::JumpIfFalse.name(), "JumpIfFalse");
    assert_eq!(OpCode::DefineGlobal.name(), "DefineGlobal");
    for op in all_op_codes() {
        assert_eq!(op.name(), format!("{:?}", op));
    }
}

#[test]
fn instruction_constructors() {
    assert_eq!(
        Instruction::new(OpCode::Jump, Some(1), Some(2)),
        Instruction { op_code: OpCode::Jump, operand1: Some(1), operand2: Some(2) }
    );
    assert_eq!(
        Instruction::simple(OpCode::Add),
        Instruction { op_code: OpCode::Add, operand1: None, operand2: None }
    );
    assert_eq!(
        Instruction::unary(OpCode::GetLocal, 3),
        Instruction { op_code: OpCode::GetLocal, operand1: Some(3), operand2: None }
    );
    assert_eq!(
        Instruction::binary(OpCode::Loop, 0, 9),
        Instruction { op_code: OpCode::Loop, operand1: Some(0), operand2: Some(9) }
    );
}

#[test]
fn instruction_text() {
    assert_eq!(Instruction::simple(OpCode::Negate).to_text(), "Negate");
    assert_eq!(Instruction::unary(OpCode::Constant, 12).to_text(), "Constant 12");
    assert_eq!(Instruction::binary(OpCode::Jump, 1, 255).to_text(), "Jump 1 255");
}

#[test]
fn writer_appends_instructions_with_their_line() {
    let mut writer = InstructionWriter::with_new_chunk();
    assert_eq!(writer.len(), 0);
    assert_eq!(writer.write_op_code(OpCode::Nil, 1), 0);
    assert_eq!(writer.write_op_code_with_operand(OpCode::GetLocal, 5, 2), 1);
    assert_eq!(writer.write_op_code_with_operands(OpCode::Jump, 1, 2, 3), 3);
    assert_eq!(writer.len(), 6);
    let chunk = writer.to_chunk();
    assert_eq!(code_of(&chunk), vec![7, 19, 5, 21, 1, 2]);
    assert_eq!(lines_of(&chunk), vec![1, 2, 2, 3, 3, 3]);
}

#[test]
fn writer_write_const_adds_the_constant_and_loads_it() {
    let mut writer = InstructionWriter::with_new_chunk();
    assert_eq!(writer.write_const(Value::Nil, 4), Ok(0));
    assert_eq!(writer.write_const(Value::Boolean(true), 5), Ok(2));
    let chunk = writer.to_chunk();
    assert_eq!(code_of(&chunk), vec![0, 0, 0, 1]);
    assert_eq!(lines_of(&chunk), vec![4, 4, 5, 5]);
    assert_eq!(chunk.constants_len(), 2);
    assert!(chunk.get_constant(1).unwrap().equals(&Value::Boolean(true)));
}

#[test]
fn writer_write_const_fails_on_the_257th_constant() {
    let mut writer = InstructionWriter::with_new_chunk();
    for i in 0..256u64 {
        assert_eq!(writer.add_constant(Value::Number(Number::from_bits(i))), Ok(i as u8));
    }
    assert_eq!(writer.write_const(Value::Nil, 1), Err(WriteError::TooManyConstants));
    assert_eq!(writer.add_constant(Value::Nil), Err(WriteError::TooManyConstants));
    assert_eq!(writer.len(), 0);
    assert_eq!(writer.to_chunk().constants_len(), 256);
}

#[test]
fn jumps_are_written_with_placeholders() {
    let mut writer = InstructionWriter::with_new_chunk();
    writer.write_op_code(OpCode::True, 1);
    assert_eq!(writer.write_jump_if_false(1), 1);
    assert_eq!(writer.write_jump(2), 4);
    let chunk = writer.to_chunk();
    assert_eq!(code_of(&chunk), vec![8, 22, 0xff, 0xff, 21, 0xff, 0xff]);
}

#[test]
fn patching_writes_the_distance_to_the_end_big_endian() {
    let mut writer = InstructionWriter::with_new_chunk();
    let jump = writer.write_jump(1);
    for _ in 0..300 {
        writer.write_op_code(OpCode::Pop, 1);
    }
    assert_eq!(writer.patch_jump_to_chunk_end(jump), Ok(()));
    let chunk = writer.to_chunk();
    // 303 bytes in all; 300 of them lie behind the jump: 300 = 1 * 256 + 44.
    assert_eq!(chunk.read(0), Ok(21));
    assert_eq!(chunk.read(1), Ok(1));
    assert_eq!(chunk.read(2), Ok(44));
    assert_eq!(chunk.read(3), Ok(15));
}

#[test]
fn patching_a_jump_at_the_end_gives_distance_zero() {
    let mut writer = InstructionWriter::with_new_chunk();
    let jump = writer.write_jump_if_false(1);
    assert_eq!(writer.patch_jump_to_chunk_end(jump), Ok(()));
    assert_eq!(code_of(&writer.to_chunk()), vec![22, 0, 0]);
}

#[test]
fn patching_fails_beyond_65535_bytes() {
    let mut writer = InstructionWriter::with_new_chunk();
    let jump = writer.write_jump(1);
    for _ in 0..65535 {
        writer.write_op_code(OpCode::Pop, 1);
    }
    let mut exact = writer;
    assert_eq!(exact.patch_jump_to_chunk_end(jump), Ok(()));
    exact.write_op_code(OpCode::Pop, 1);
    assert_eq!(exact.patch_jump_to_chunk_end(jump), Err(WriteError::JumpTooLong(65536)));
    let chunk = exact.to_chunk();
    // The operands of the first patch stay: 65535 = 0xff 0xff.
    assert_eq!(chunk.read(1), Ok(0xff));
    assert_eq!(chunk.read(2), Ok(0xff));
}

#[test]
fn patching_fails_where_there_is_no_jump() {
    let mut writer = InstructionWriter::with_new_chunk();
    writer.write_op_code(OpCode::Pop, 1);
    writer.write_op_code(OpCode::Pop, 1);
    assert_eq!(writer.patch_jump_to_chunk_end(0), Err(WriteError::JumpOutOfRange(0)));
    assert_eq!(writer.patch_jump_to_chunk_end(7), Err(WriteError::JumpOutOfRange(7)));
    assert_eq!(
        writer.patch_jump_to_chunk_end(usize::MAX),
        Err(WriteError::JumpOutOfRange(usize::MAX))
    );
    assert_eq!(code_of(&writer.to_chunk()), vec![15, 15]);
}

#[test]
fn loop_distance_counts_from_behind_its_operands() {
    let mut writer = InstructionWriter::with_new_chunk();
    writer.write_op_code(OpCode::Nil, 1);
    let loop_start = writer.len();
    writer.write_op_code(OpCode::True, 1);
    writer.write_op_code(OpCode::Pop, 1);
    assert_eq!(writer.write_loop(loop_start, 2), Ok(3));
    // The loop stands at offset 3 and ends at 6; back to 1 is 5 bytes.
    assert_eq!(code_of(&writer.to_chunk()), vec![7, 8, 15, 23, 0, 5]);
}

#[test]
fn loop_fails_when_too_big_or_out_of_range() {
    let mut writer = InstructionWriter::with_new_chunk();
    for _ in 0..65532 {
        writer.write_op_code(OpCode::Pop, 1);
    }
    assert_eq!(writer.write_loop(65533, 1), Err(WriteError::LoopStartOutOfRange(65533)));
    assert_eq!(writer.len(), 65532);
    let mut big = writer;
    assert_eq!(big.write_loop(0, 1), Ok(65532));
    let chunk = big.to_chunk();
    assert_eq!(chunk.read(65533), Ok(0xff));
    assert_eq!(chunk.read(65534), Ok(0xff));

    let mut writer = InstructionWriter::with_new_chunk();
    for _ in 0..65533 {
        writer.write_op_code(OpCode::Pop, 1);
    }
    assert!(matches!(writer.write_loop(0, 1), Err(WriteError::LoopTooBig(_))));
    assert_eq!(writer.len(), 65533);
}

#[test]
fn set_byte_and_patch_operands() {
    let mut writer = InstructionWriter::with_new_chunk();
    writer.write_op_code_with_operands(OpCode::Jump, 9, 9, 1);
    assert_eq!(writer.set_byte(1, 4), Ok(()));
    assert_eq!(writer.set_byte(3, 4), Err(WriteError::ChunkOverflow));
    assert_eq!(writer.patch_operands(0, None, Some(6)), Ok(()));
    assert_eq!(writer.patch_operands(0, Some(5), None), Ok(()));
    assert_eq!(writer.patch_operands(1, Some(7), Some(8)), Err(WriteError::ChunkOverflow));
    assert_eq!(writer.patch_operands(2, Some(1), Some(1)), Err(WriteError::ChunkOverflow));
    assert_eq!(writer.patch_operands(5, None, None), Ok(()));
    // The first operand of the failed patch at 1 was written before the second failed.
    assert_eq!(code_of(&writer.to_chunk()), vec![21, 5, 7]);
}

#[test]
fn writer_over_an_existing_chunk_goes_on_behind_it() {
    let mut chunk = Chunk::new();
    chunk.write(15, 1);
    let mut writer = InstructionWriter::new(chunk);
    assert_eq!(writer.len(), 1);
    assert_eq!(writer.write_op_code(OpCode::Return, 2), 1);
    assert_eq!(code_of(&writer.to_chunk()), vec![15, 1]);
}

#[test]
fn write_error_messages() {
    assert_eq!(WriteError::TooManyConstants.message(), "Too many constants in chunk");
    assert_eq!(WriteError::LoopTooBig(70000).message(), "Loop body too big (70000)");
    assert_eq!(WriteError::JumpTooLong(65536).message(), "Jump too long (65536)");
    assert_eq!(WriteError::JumpOutOfRange(3).message(), "Jump out of range (3)");
    assert_eq!(WriteError::LoopStartOutOfRange(9).message(), "Loop start out of range (9)");
    assert_eq!(WriteError::ChunkOverflow.message(), "Chunk overflow");
}

#[test]
fn reader_reads_what_the_writer_wrote() {
    let mut writer = InstructionWriter::with_new_chunk();
    writer.write_const(Value::Nil, 1).unwrap();
    writer.write_op_code(OpCode::Negate, 2);
    writer.write_op_code_with_operands(OpCode::Loop, 1, 2, 3);
    writer.write_op_code_with_operand(OpCode::SetLocal, 200, 4);
    let chunk = writer.to_chunk();
    let mut reader = InstructionReader::new(&chunk);
    assert_eq!(reader.position(), 0);
    assert_eq!(reader.read_next(), Ok(Some((Instruction::unary(OpCode::Constant, 0), 0, 1))));
    assert_eq!(reader.position(), 2);
    assert_eq!(reader.read_next(), Ok(Some((Instruction::simple(OpCode::Negate), 2, 2))));
    assert_eq!(reader.read_next(), Ok(Some((Instruction::binary(OpCode::Loop, 1, 2), 3, 3))));
    assert_eq!(reader.read_next(), Ok(Some((Instruction::unary(OpCode::SetLocal, 200), 6, 4))));
    assert_eq!(reader.position(), 8);
    assert_eq!(reader.read_next(), Ok(None));
    assert_eq!(reader.read_next(), Ok(None));
    assert_eq!(reader.position(), 8);
    assert!(reader.get_const(0).unwrap().equals(&Value::Nil));
    assert!(matches!(reader.get_const(1), Err(ChunkError::IndexOutOfRange(1))));
}

#[test]
fn reader_fails_on_unknown_op_code() {
    let mut chunk = Chunk::new();
    chunk.write(24, 1);
    chunk.write(1, 1);
    let mut reader = InstructionReader::new(&chunk);
    assert_eq!(reader.read_next(), Err(ReadError::UnknownOpcode(24)));
    assert_eq!(reader.position(), 1);
    assert_eq!(reader.read_next(), Ok(Some((Instruction::simple(OpCode::Return), 1, 1))));
}

#[test]
fn reader_fails_when_operands_run_past_the_end() {
    let mut chunk = Chunk::new();
    chunk.write(OpCode::Jump.to_byte(), 1);
    chunk.write(3, 1);
    let mut reader = InstructionReader::new(&chunk);
    assert_eq!(reader.read_next(), Err(ReadError::OffsetOutOfRange(2)));
    assert_eq!(reader.position(), 2);

    let mut chunk = Chunk::new();
    chunk.write(OpCode::Constant.to_byte(), 1);
    let mut reader = InstructionReader::new(&chunk);
    assert_eq!(reader.read_next(), Err(ReadError::OffsetOutOfRange(1)));
}

#[test]
fn reader_moves_its_pointer_only_inside_the_code() {
    let mut chunk = Chunk::new();
    for _ in 0..4 {
        chunk.write(OpCode::Pop.to_byte(), 1);
    }
    let mut reader = InstructionReader::new(&chunk);
    assert_eq!(reader.set_ip(4), Ok(()));
    assert_eq!(reader.position(), 4);
    assert_eq!(reader.set_ip(5), Err(ReadError::IpBeyondChunk(5)));
    assert_eq!(reader.position(), 4);
    assert_eq!(reader.dec_ip(3), Ok(()));
    assert_eq!(reader.position(), 1);
    assert_eq!(reader.dec_ip(2), Err(ReadError::IpBeforeStart(2)));
    assert_eq!(reader.position(), 1);
    assert_eq!(reader.inc_ip(3), Ok(()));
    assert_eq!(reader.position(), 4);
    assert_eq!(reader.inc_ip(1), Err(ReadError::IpBeyondChunk(5)));
    assert!(matches!(reader.inc_ip(usize::MAX), Err(ReadError::IpBeyondChunk(_))));
    assert_eq!(reader.position(), 4);
    assert_eq!(reader.inc_ip(0), Ok(()));
    assert_eq!(reader.set_ip(0), Ok(()));
    assert_eq!(reader.read_next(), Ok(Some((Instruction::simple(OpCode::Pop), 0, 1))));
}

#[test]
fn read_error_messages() {
    assert_eq!(ReadError::UnknownOpcode(99).message(), "Unknown opcode 99");
    assert_eq!(ReadError::OffsetOutOfRange(4).message(), "Offset 4 is out range");
    assert_eq!(ReadError::IpBeyondChunk(17).message(), "Attempt to set ip beyond chunk (17)");
    assert_eq!(ReadError::IpBeforeStart(3).message(), "Attempt to set ip before chunk (-3)");
}
