//! The instruction set, its byte encoding, and the writer and reader that
//! put instructions into a chunk and take them out again.

use vstd::prelude::*;
use vstd::string::*;
use crate::chunk::{Chunk, ChunkError};
use crate::text::{decimal, decimal_text};
use crate::value::Value;

verus! {

/// The operation of an instruction.  The byte of an opcode is its position
/// in this list, starting at 0.
#[derive(Clone, Copy, Debug, PartialEq, Eq, Structural)]
pub enum OpCode {
    Constant,
    Return,
    Negate,
    Add,
    Subtract,
    Multiply,
    Divide,
    Nil,
    True,
    False,
    Not,
    Equal,
    Greater,
    Less,
    Print,
    Pop,
    DefineGlobal,
    GetGlobal,
    SetGlobal,
    GetLocal,
    SetLocal,
    Jump,
    JumpIfFalse,
    Loop,
}

impl OpCode {
    /// The byte that encodes the opcode.
    pub open spec fn spec_byte(self) -> u8 {
        match self {
            OpCode::Constant => 0,
            OpCode::Return => 1,
            OpCode::Negate => 2,
            OpCode::Add => 3,
            OpCode::Subtract => 4,
            OpCode::Multiply => 5,
            OpCode::Divide => 6,
            OpCode::Nil => 7,
            OpCode::True => 8,
            OpCode::False => 9,
            OpCode::Not => 10,
            OpCode::Equal => 11,
            OpCode::Greater => 12,
            OpCode::Less => 13,
            OpCode::Print => 14,
            OpCode::Pop => 15,
            OpCode::DefineGlobal => 16,
            OpCode::GetGlobal => 17,
            OpCode::SetGlobal => 18,
            OpCode::GetLocal => 19,
            OpCode::SetLocal => 20,
            OpCode::Jump => 21,
            OpCode::JumpIfFalse => 22,
            OpCode::Loop => 23,
        }
    }

    /// The opcode that a byte encodes, if any.
    pub open spec fn spec_from_byte(byte: u8) -> Option<OpCode> {
        if byte == 0 {
            Some(OpCode::Constant)
        } else if byte == 1 {
            Some(OpCode::Return)
        } else if byte == 2 {
            Some(OpCode::Negate)
        } else if byte == 3 {
            Some(OpCode::Add)
        } else if byte == 4 {
            Some(OpCode::Subtract)
        } else if byte == 5 {
            Some(OpCode::Multiply)
        } else if byte == 6 {
            Some(OpCode::Divide)
        } else if byte == 7 {
            Some(OpCode::Nil)
        } else if byte == 8 {
            Some(OpCode::True)
        } else if byte == 9 {
            Some(OpCode::False)
        } else if byte == 10 {
            Some(OpCode::Not)
        } else if byte == 11 {
            Some(OpCode::Equal)
        } else if byte == 12 {
            Some(OpCode::Greater)
        } else if byte == 13 {
            Some(OpCode::Less)
        } else if byte == 14 {
            Some(OpCode::Print)
        } else if byte == 15 {
            Some(OpCode::Pop)
        } else if byte == 16 {
            Some(OpCode::DefineGlobal)
        } else if byte == 17 {
            Some(OpCode::GetGlobal)
        } else if byte == 18 {
            Some(OpCode::SetGlobal)
        } else if byte == 19 {
            Some(OpCode::GetLocal)
        } else if byte == 20 {
            Some(OpCode::SetLocal)
        } else if byte == 21 {
            Some(OpCode::Jump)
        } else if byte == 22 {
            Some(OpCode::JumpIfFalse)
        } else if byte == 23 {
            Some(OpCode::Loop)
        } else {
            None
        }
    }

    /// How many operand bytes follow the opcode.
    pub open spec fn arity(self) -> nat {
        match self {
            OpCode::Constant
            | OpCode::DefineGlobal
            | OpCode::GetGlobal
            | OpCode::SetGlobal
            | OpCode::GetLocal
            | OpCode::SetLocal => 1,
            OpCode::Jump | OpCode::JumpIfFalse | OpCode::Loop => 2,
            _ => 0,
        }
    }

    /// The name of the opcode, as diagnostics show it.
    pub open spec fn spec_name(self) -> Seq<char> {
        match self {
            OpCode::Constant => "Constant"@,
            OpCode::Return => "Return"@,
            OpCode::Negate => "Negate"@,
            OpCode::Add => "Add"@,
            OpCode::Subtract => "Subtract"@,
            OpCode::Multiply => "Multiply"@,
            OpCode::Divide => "Divide"@,
            OpCode::Nil => "Nil"@,
            OpCode::True => "True"@,
            OpCode::False => "False"@,
            OpCode::Not => "Not"@,
            OpCode::Equal => "Equal"@,
            OpCode::Greater => "Greater"@,
            OpCode::Less => "Less"@,
            OpCode::Print => "Print"@,
            OpCode::Pop => "Pop"@,
            OpCode::DefineGlobal => "DefineGlobal"@,
            OpCode::GetGlobal => "GetGlobal"@,
            OpCode::SetGlobal => "SetGlobal"@,
            OpCode::GetLocal => "GetLocal"@,
            OpCode::SetLocal => "SetLocal"@,
            OpCode::Jump => "Jump"@,
            OpCode::JumpIfFalse => "JumpIfFalse"@,
            OpCode::Loop => "Loop"@,
        }
    }

    pub fn to_byte(self) -> (byte: u8)
        ensures
            byte == self.spec_byte(),
            OpCode::spec_from_byte(byte) == Some(self),
    {
        match self {
            OpCode::Constant => 0,
            OpCode::Return => 1,
            OpCode::Negate => 2,
            OpCode::Add => 3,
            OpCode::Subtract => 4,
            OpCode::Multiply => 5,
            OpCode::Divide => 6,
            OpCode::Nil => 7,
            OpCode::True => 8,
            OpCode::False => 9,
            OpCode::Not => 10,
            OpCode::Equal => 11,
            OpCode::Greater => 12,
            OpCode::Less => 13,
            OpCode::Print => 14,
            OpCode::Pop => 15,
            OpCode::DefineGlobal => 16,
            OpCode::GetGlobal => 17,
            OpCode::SetGlobal => 18,
            OpCode::GetLocal => 19,
            OpCode::SetLocal => 20,
            OpCode::Jump => 21,
            OpCode::JumpIfFalse => 22,
            OpCode::Loop => 23,
        }
    }

    /// Decodes an opcode byte; a byte above that of `Loop` encodes nothing.
    pub fn from_byte(byte: u8) -> (r: Result<OpCode, ReadError>)
        ensures
            OpCode::spec_from_byte(byte) is Some ==> r == Ok::<OpCode, ReadError>(
                OpCode::spec_from_byte(byte)->0,
            ),
            OpCode::spec_from_byte(byte) is None ==> r == Err::<OpCode, ReadError>(
                ReadError::UnknownOpcode(byte),
            ),
            r is Ok <==> byte <= 23,
    {
        match byte {
            0 => Ok(OpCode::Constant),
            1 => Ok(OpCode::Return),
            2 => Ok(OpCode::Negate),
            3 => Ok(OpCode::Add),
            4 => Ok(OpCode::Subtract),
            5 => Ok(OpCode::Multiply),
            6 => Ok(OpCode::Divide),
            7 => Ok(OpCode::Nil),
            8 => Ok(OpCode::True),
            9 => Ok(OpCode::False),
            10 => Ok(OpCode::Not),
            11 => Ok(OpCode::Equal),
            12 => Ok(OpCode::Greater),
            13 => Ok(OpCode::Less),
            14 => Ok(OpCode::Print),
            15 => Ok(OpCode::Pop),
            16 => Ok(OpCode::DefineGlobal),
            17 => Ok(OpCode::GetGlobal),
            18 => Ok(OpCode::SetGlobal),
            19 => Ok(OpCode::GetLocal),
            20 => Ok(OpCode::SetLocal),
            21 => Ok(OpCode::Jump),
            22 => Ok(OpCode::JumpIfFalse),
            23 => Ok(OpCode::Loop),
            _ => Err(ReadError::UnknownOpcode(byte)),
        }
    }

    pub fn operand_count(self) -> (n: usize)
        ensures
            n == self.arity(),
    {
        match self {
            OpCode::Constant
            | OpCode::DefineGlobal
            | OpCode::GetGlobal
            | OpCode::SetGlobal
            | OpCode::GetLocal
            | OpCode::SetLocal => 1,
            OpCode::Jump | OpCode::JumpIfFalse | OpCode::Loop => 2,
            _ => 0,
        }
    }

    pub fn name(self) -> (text: &'static str)
        ensures
            text@ == self.spec_name(),
    {
        match self {
            OpCode::Constant => "Constant",
            OpCode::Return => "Return",
            OpCode::Negate => "Negate",
            OpCode::Add => "Add",
            OpCode::Subtract => "Subtract",
            OpCode::Multiply => "Multiply",
            OpCode::Divide => "Divide",
            OpCode::Nil => "Nil",
            OpCode::True => "True",
            OpCode::False => "False",
            OpCode::Not => "Not",
            OpCode::Equal => "Equal",
            OpCode::Greater => "Greater",
            OpCode::Less => "Less",
            OpCode::Print => "Print",
            OpCode::Pop => "Pop",
            OpCode::DefineGlobal => "DefineGlobal",
            OpCode::GetGlobal => "GetGlobal",
            OpCode::SetGlobal => "SetGlobal",
            OpCode::GetLocal => "GetLocal",
            OpCode::SetLocal => "SetLocal",
            OpCode::Jump => "Jump",
            OpCode::JumpIfFalse => "JumpIfFalse",
            OpCode::Loop => "Loop",
        }
    }
}

/// An opcode with the operand bytes that were read for it.
#[derive(Clone, Copy, Debug, PartialEq, Eq, Structural)]
pub struct Instruction {
    pub op_code: OpCode,
    pub operand1: Option<u8>,
    pub operand2: Option<u8>,
}

impl Instruction {
    /// Whether the instruction carries exactly the operands of its opcode.
    pub open spec fn wf(self) -> bool {
        &&& self.operand1 is Some <==> self.op_code.arity() >= 1
        &&& self.operand2 is Some <==> self.op_code.arity() >= 2
    }

    /// The bytes that encode the instruction: the opcode, then its operands.
    pub open spec fn bytes(self) -> Seq<u8> {
        let head = seq![self.op_code.spec_byte()];
        match (self.operand1, self.operand2) {
            (Some(a), Some(b)) => head.push(a).push(b),
            (Some(a), None) => head.push(a),
            _ => head,
        }
    }

    /// The two operands read as one big-endian number.
    pub open spec fn distance(self) -> int {
        self.operand1->0 * 256 + self.operand2->0
    }

    /// The instruction as diagnostics show it: the opcode's name, then each
    /// operand in decimal after a space.
    pub open spec fn spec_text(self) -> Seq<char> {
        let name = self.op_code.spec_name();
        let first = match self.operand1 {
            Some(a) => name + " "@ + decimal(a as nat),
            None => name,
        };
        match self.operand2 {
            Some(b) => first + " "@ + decimal(b as nat),
            None => first,
        }
    }

    pub fn new(op_code: OpCode, operand1: Option<u8>, operand2: Option<u8>) -> (r: Self)
        ensures
            r == (Instruction { op_code, operand1, operand2 }),
    {
        Self { op_code, operand1, operand2 }
    }

    pub fn simple(op_code: OpCode) -> (r: Self)
        ensures
            r == (Instruction { op_code, operand1: None, operand2: None }),
    {
        Self::new(op_code, None, None)
    }

    pub fn unary(op_code: OpCode, operand: u8) -> (r: Self)
        ensures
            r == (Instruction { op_code, operand1: Some(operand), operand2: None }),
    {
        Self::new(op_code, Some(operand), None)
    }

    pub fn binary(op_code: OpCode, operand1: u8, operand2: u8) -> (r: Self)
        ensures
            r == (Instruction { op_code, operand1: Some(operand1), operand2: Some(operand2) }),
    {
        Self::new(op_code, Some(operand1), Some(operand2))
    }

    pub fn to_text(&self) -> (text: String)
        ensures
            text@ == self.spec_text(),
    {
        let mut text = String::from_str(self.op_code.name());
        match self.operand1 {
            Some(a) => {
                text.append(" ");
                text.append(decimal_text(a as u64).as_str());
            },
            None => {},
        }
        match self.operand2 {
            Some(b) => {
                text.append(" ");
                text.append(decimal_text(b as u64).as_str());
            },
            None => {},
        }
        text
    }
}

/// Why a write through an [`InstructionWriter`] failed.
#[derive(Clone, Copy, Debug, PartialEq, Eq, Structural)]
pub enum WriteError {
    /// The constant pool is full.
    TooManyConstants,
    /// A backward jump would span more than 65535 bytes.
    LoopTooBig(usize),
    /// The start of a loop lies behind the end of the code.
    LoopStartOutOfRange(usize),
    /// A forward jump would span more than 65535 bytes.
    JumpTooLong(usize),
    /// The operands of a jump to patch do not lie inside the code.
    JumpOutOfRange(usize),
    /// A byte to overwrite lies at or behind the end of the code.
    ChunkOverflow,
}

impl WriteError {
    pub open spec fn spec_message(self) -> Seq<char> {
        match self {
            WriteError::TooManyConstants => "Too many constants in chunk"@,
            WriteError::LoopTooBig(distance) => "Loop body too big ("@ + decimal(distance as nat)
                + ")"@,
            WriteError::LoopStartOutOfRange(start) => "Loop start out of range ("@ + decimal(
                start as nat,
            ) + ")"@,
            WriteError::JumpTooLong(distance) => "Jump too long ("@ + decimal(distance as nat)
                + ")"@,
            WriteError::JumpOutOfRange(offset) => "Jump out of range ("@ + decimal(offset as nat)
                + ")"@,
            WriteError::ChunkOverflow => "Chunk overflow"@,
        }
    }

    pub fn message(&self) -> (text: String)
        ensures
            text@ == self.spec_message(),
    {
        match self {
            WriteError::TooManyConstants => String::from_str("Too many constants in chunk"),
            WriteError::LoopTooBig(distance) => String::from_str("Loop body too big (").concat(
                decimal_text(*distance as u64).as_str(),
            ).concat(")"),
            WriteError::LoopStartOutOfRange(start) => String::from_str(
                "Loop start out of range (",
            ).concat(decimal_text(*start as u64).as_str()).concat(")"),
            WriteError::JumpTooLong(distance) => String::from_str("Jump too long (").concat(
                decimal_text(*distance as u64).as_str(),
            ).concat(")"),
            WriteError::JumpOutOfRange(offset) => String::from_str("Jump out of range (").concat(
                decimal_text(*offset as u64).as_str(),
            ).concat(")"),
            WriteError::ChunkOverflow => String::from_str("Chunk overflow"),
        }
    }
}

/// Why a read through an [`InstructionReader`] failed.
#[derive(Clone, Copy, Debug, PartialEq, Eq, Structural)]
pub enum ReadError {
    /// The byte at the instruction pointer encodes no opcode.
    UnknownOpcode(u8),
    /// The code ends before the operand at this offset.
    OffsetOutOfRange(usize),
    /// An instruction pointer behind the end of the code.
    IpBeyondChunk(usize),
    /// A step back by more bytes than lie before the instruction pointer.
    IpBeforeStart(usize),
}

impl ReadError {
    pub open spec fn spec_message(self) -> Seq<char> {
        match self {
            ReadError::UnknownOpcode(byte) => "Unknown opcode "@ + decimal(byte as nat),
            ReadError::OffsetOutOfRange(offset) => "Offset "@ + decimal(offset as nat)
                + " is out range"@,
            ReadError::IpBeyondChunk(ip) => "Attempt to set ip beyond chunk ("@ + decimal(
                ip as nat,
            ) + ")"@,
            ReadError::IpBeforeStart(dec) => "Attempt to set ip before chunk (-"@ + decimal(
                dec as nat,
            ) + ")"@,
        }
    }

    pub fn message(&self) -> (text: String)
        ensures
            text@ == self.spec_message(),
    {
        match self {
            ReadError::UnknownOpcode(byte) => String::from_str("Unknown opcode ").concat(
                decimal_text(*byte as u64).as_str(),
            ),
            ReadError::OffsetOutOfRange(offset) => String::from_str("Offset ").concat(
                decimal_text(*offset as u64).as_str(),
            ).concat(" is out range"),
            ReadError::IpBeyondChunk(ip) => String::from_str(
                "Attempt to set ip beyond chunk (",
            ).concat(decimal_text(*ip as u64).as_str()).concat(")"),
            ReadError::IpBeforeStart(dec) => String::from_str(
                "Attempt to set ip before chunk (-",
            ).concat(decimal_text(*dec as u64).as_str()).concat(")"),
        }
    }
}

/// The largest distance that the two operand bytes of a jump can hold.
pub const MAX_JUMP: usize = 65535;

/// The bytes of a program: the bytes of its instructions, one after another.
pub open spec fn encode(program: Seq<Instruction>) -> Seq<u8>
    decreases program.len(),
{
    if program.len() == 0 {
        Seq::<u8>::empty()
    } else {
        encode(program.drop_last()) + program.last().bytes()
    }
}

/// The instruction whose encoding starts at `at`, if the byte there is an
/// opcode and all its operands lie inside the code.
pub open spec fn decode_at(code: Seq<u8>, at: int) -> Option<Instruction> {
    if 0 <= at < code.len() {
        match OpCode::spec_from_byte(code[at]) {
            Some(op_code) => if at + 1 + op_code.arity() <= code.len() {
                Some(
                    Instruction {
                        op_code,
                        operand1: if op_code.arity() >= 1 {
                            Some(code[at + 1])
                        } else {
                            None
                        },
                        operand2: if op_code.arity() >= 2 {
                            Some(code[at + 2])
                        } else {
                            None
                        },
                    },
                )
            } else {
                None
            },
            None => None,
        }
    } else {
        None
    }
}

/// Appends instructions to a chunk and patches jumps in it.
pub struct InstructionWriter {
    chunk: Chunk,
}

impl InstructionWriter {
    /// The chunk that is being written.
    pub closed spec fn chunk(&self) -> Chunk {
        self.chunk
    }

    pub open spec fn wf(&self) -> bool {
        self.chunk().wf()
    }

    /// The code written so far.
    pub open spec fn code(&self) -> Seq<u8> {
        self.chunk().code()
    }

    /// The source line of each byte written so far.
    pub open spec fn lines(&self) -> Seq<i32> {
        self.chunk().lines()
    }

    /// The constants added so far.
    pub open spec fn constants(&self) -> Seq<Value> {
        self.chunk().constants()
    }

    /// Whether code, lines and constants are those of `before`.
    pub open spec fn same_as(&self, before: &Self) -> bool {
        &&& self.code() == before.code()
        &&& self.lines() == before.lines()
        &&& self.constants() == before.constants()
    }

    /// What a write of `bytes`, all from source line `line`, leaves behind.
    pub open spec fn appended(&self, before: &Self, bytes: Seq<u8>, line: i32) -> bool {
        &&& self.wf()
        &&& self.code() == before.code() + bytes
        &&& self.lines() == before.lines() + Seq::new(bytes.len(), |i: int| line)
        &&& self.constants() == before.constants()
    }

    pub fn new(chunk: Chunk) -> (writer: Self)
        requires
            chunk.wf(),
        ensures
            writer.wf(),
            writer.chunk() == chunk,
    {
        Self { chunk }
    }

    pub fn with_new_chunk() -> (writer: Self)
        ensures
            writer.wf(),
            writer.code() == Seq::<u8>::empty(),
            writer.lines() == Seq::<i32>::empty(),
            writer.constants() == Seq::<Value>::empty(),
    {
        Self { chunk: Chunk::new() }
    }

    pub fn to_chunk(self) -> (chunk: Chunk)
        ensures
            chunk == self.chunk(),
    {
        self.chunk
    }

    pub fn len(&self) -> (n: usize)
        ensures
            n == self.code().len(),
    {
        self.chunk.len()
    }

    /// Adds `value` to the constant pool and appends a `Constant`
    /// instruction that loads it.  Returns the offset of the instruction.
    /// With a full pool nothing is written.
    pub fn write_const(&mut self, value: Value, src_line_number: i32) -> (r: Result<
        usize,
        WriteError,
    >)
        requires
            old(self).wf(),
        ensures
            final(self).wf(),
            old(self).constants().len() < 256 ==> {
                &&& r == Ok::<usize, WriteError>(old(self).code().len() as usize)
                &&& final(self).constants() == old(self).constants().push(value)
                &&& final(self).code() == old(self).code() + Instruction {
                    op_code: OpCode::Constant,
                    operand1: Some(old(self).constants().len() as u8),
                    operand2: None,
                }.bytes()
                &&& final(self).lines() == old(self).lines().push(src_line_number).push(
                    src_line_number,
                )
            },
            old(self).constants().len() >= 256 ==> {
                &&& r == Err::<usize, WriteError>(WriteError::TooManyConstants)
                &&& final(self).same_as(old(self))
            },
    {
        let const_index = match self.chunk.add_constant(value) {
            Ok(index) => index,
            Err(_) => {
                return Err(WriteError::TooManyConstants);
            },
        };
        let start = self.chunk.write(OpCode::Constant.to_byte(), src_line_number);
        self.chunk.write(const_index, src_line_number);
        proof {
            assert(final(self).code() =~= old(self).code() + Instruction {
                op_code: OpCode::Constant,
                operand1: Some(old(self).constants().len() as u8),
                operand2: None,
            }.bytes());
        }
        Ok(start)
    }

    /// Appends an instruction with one operand and returns its offset.
    pub fn write_op_code_with_operand(
        &mut self,
        op_code: OpCode,
        operand: u8,
        src_line_number: i32,
    ) -> (start: usize)
        requires
            old(self).wf(),
        ensures
            start == old(self).code().len(),
            final(self).appended(
                old(self),
                seq![op_code.spec_byte(), operand],
                src_line_number,
            ),
    {
        let start = self.chunk.write(op_code.to_byte(), src_line_number);
        self.chunk.write(operand, src_line_number);
        proof {
            assert(final(self).code() =~= old(self).code() + seq![op_code.spec_byte(), operand]);
            assert(final(self).lines() =~= old(self).lines() + Seq::new(
                2,
                |i: int| src_line_number,
            ));
        }
        start
    }

    /// Appends an instruction with two operands and returns its offset.
    pub fn write_op_code_with_operands(
        &mut self,
        op_code: OpCode,
        operand1: u8,
        operand2: u8,
        src_line_number: i32,
    ) -> (start: usize)
        requires
            old(self).wf(),
        ensures
            start == old(self).code().len(),
            final(self).appended(
                old(self),
                seq![op_code.spec_byte(), operand1, operand2],
                src_line_number,
            ),
    {
        let start = self.chunk.write(op_code.to_byte(), src_line_number);
        self.chunk.write(operand1, src_line_number);
        self.chunk.write(operand2, src_line_number);
        proof {
            assert(final(self).code() =~= old(self).code() + seq![
                op_code.spec_byte(),
                operand1,
                operand2,
            ]);
            assert(final(self).lines() =~= old(self).lines() + Seq::new(
                3,
                |i: int| src_line_number,
            ));
        }
        start
    }

    /// Appends an opcode alone and returns its offset.
    pub fn write_op_code(&mut self, op_code: OpCode, src_line_number: i32) -> (start: usize)
        requires
            old(self).wf(),
        ensures
            start == old(self).code().len(),
            final(self).appended(old(self), seq![op_code.spec_byte()], src_line_number),
    {
        let start = self.chunk.write(op_code.to_byte(), src_line_number);
        proof {
            assert(final(self).code() =~= old(self).code() + seq![op_code.spec_byte()]);
            assert(final(self).lines() =~= old(self).lines() + Seq::new(
                1,
                |i: int| src_line_number,
            ));
        }
        start
    }

    /// Appends a `JumpIfFalse` whose operands are still to be patched.
    pub fn write_jump_if_false(&mut self, src_line_number: i32) -> (start: usize)
        requires
            old(self).wf(),
        ensures
            start == old(self).code().len(),
            final(self).appended(
                old(self),
                seq![OpCode::JumpIfFalse.spec_byte(), 0xffu8, 0xffu8],
                src_line_number,
            ),
    {
        self.write_op_code_with_operands(OpCode::JumpIfFalse, 0xff, 0xff, src_line_number)
    }

    /// Appends a `Jump` whose operands are still to be patched.
    pub fn write_jump(&mut self, src_line_number: i32) -> (start: usize)
        requires
            old(self).wf(),
        ensures
            start == old(self).code().len(),
            final(self).appended(
                old(self),
                seq![OpCode::Jump.spec_byte(), 0xffu8, 0xffu8],
                src_line_number,
            ),
    {
        self.write_op_code_with_operands(OpCode::Jump, 0xff, 0xff, src_line_number)
    }

    /// Appends a `Loop` that jumps back to `loop_start_loc`.  Its operands
    /// hold, big-endian, the distance from the byte behind the instruction
    /// back to `loop_start_loc`.  Fails, writing nothing, when the start lies
    /// behind the end of the code or the distance does not fit.
    pub fn write_loop(&mut self, loop_start_loc: usize, src_line_number: i32) -> (r: Result<
        usize,
        WriteError,
    >)
        requires
            old(self).wf(),
        ensures
            final(self).wf(),
            loop_start_loc > old(self).code().len() ==> {
                &&& r == Err::<usize, WriteError>(WriteError::LoopStartOutOfRange(loop_start_loc))
                &&& final(self).same_as(old(self))
            },
            loop_start_loc <= old(self).code().len() && old(self).code().len() + 3
                - loop_start_loc > MAX_JUMP ==> {
                &&& r == Err::<usize, WriteError>(
                    WriteError::LoopTooBig((old(self).code().len() - loop_start_loc) as usize),
                )
                &&& final(self).same_as(old(self))
            },
            loop_start_loc <= old(self).code().len() && old(self).code().len() + 3
                - loop_start_loc <= MAX_JUMP ==> {
                let distance = old(self).code().len() + 3 - loop_start_loc;
                &&& r == Ok::<usize, WriteError>(old(self).code().len() as usize)
                &&& final(self).appended(
                    old(self),
                    seq![OpCode::Loop.spec_byte(), (distance / 256) as u8, (distance % 256) as u8],
                    src_line_number,
                )
            },
    {
        let len = self.chunk.len();
        if loop_start_loc > len {
            return Err(WriteError::LoopStartOutOfRange(loop_start_loc));
        }
        let span = len - loop_start_loc;
        if span > MAX_JUMP - 3 {
            return Err(WriteError::LoopTooBig(span));
        }
        let offset = span + 3;
        let op1 = (offset / 256) as u8;
        let op2 = (offset % 256) as u8;
        let start = self.write_op_code_with_operands(OpCode::Loop, op1, op2, src_line_number);
        Ok(start)
    }

    /// Overwrites the code byte at `loc`.
    pub fn set_byte(&mut self, loc: usize, code_byte: u8) -> (r: Result<(), WriteError>)
        requires
            old(self).wf(),
        ensures
            final(self).wf(),
            final(self).lines() == old(self).lines(),
            final(self).constants() == old(self).constants(),
            loc < old(self).code().len() ==> r == Ok::<(), WriteError>(()) && final(self).code()
                == old(self).code().update(loc as int, code_byte),
            loc >= old(self).code().len() ==> r == Err::<(), WriteError>(
                WriteError::ChunkOverflow,
            ) && final(self).code() == old(self).code(),
    {
        match self.chunk.set(loc, code_byte) {
            Ok(()) => Ok(()),
            Err(_) => Err(WriteError::ChunkOverflow),
        }
    }

    /// Overwrites the operands of the instruction at `op_code_loc`: the byte
    /// behind the opcode with `operand1` and the one after it with
    /// `operand2`, each only if given.  Stops at the first byte that lies
    /// outside the code; what was overwritten before stays.
    pub fn patch_operands(
        &mut self,
        op_code_loc: usize,
        operand1: Option<u8>,
        operand2: Option<u8>,
    ) -> (r: Result<(), WriteError>)
        requires
            old(self).wf(),
        ensures
            final(self).wf(),
            final(self).lines() == old(self).lines(),
            final(self).constants() == old(self).constants(),
            final(self).code() == patched(old(self).code(), op_code_loc as int, operand1, operand2),
            patch_fits(old(self).code(), op_code_loc as int, operand1, operand2) ==> r == Ok::<
                (),
                WriteError,
            >(()),
            !patch_fits(old(self).code(), op_code_loc as int, operand1, operand2) ==> r == Err::<
                (),
                WriteError,
            >(WriteError::ChunkOverflow),
    {
        let len = self.chunk.len();
        if let Some(op1) = operand1 {
            if op_code_loc >= usize::MAX {
                return Err(WriteError::ChunkOverflow);
            }
            match self.set_byte(op_code_loc + 1, op1) {
                Ok(()) => {},
                Err(e) => {
                    return Err(e);
                },
            }
        }
        if let Some(op2) = operand2 {
            if op_code_loc >= usize::MAX - 1 {
                return Err(WriteError::ChunkOverflow);
            }
            match self.set_byte(op_code_loc + 2, op2) {
                Ok(()) => {},
                Err(e) => {
                    return Err(e);
                },
            }
        }
        Ok(())
    }

    /// Makes the jump at `jmp_op_code_loc` land at the current end of the
    /// code: its operands get, big-endian, the number of bytes between the
    /// end of the jump instruction and the end of the code.  Fails, changing
    /// nothing, when the instruction does not lie inside the code or the
    /// distance does not fit.
    pub fn patch_jump_to_chunk_end(&mut self, jmp_op_code_loc: usize) -> (r: Result<
        (),
        WriteError,
    >)
        requires
            old(self).wf(),
        ensures
            final(self).wf(),
            final(self).lines() == old(self).lines(),
            final(self).constants() == old(self).constants(),
            jmp_op_code_loc + 3 > old(self).code().len() ==> {
                &&& r == Err::<(), WriteError>(WriteError::JumpOutOfRange(jmp_op_code_loc))
                &&& final(self).code() == old(self).code()
            },
            jmp_op_code_loc + 3 <= old(self).code().len() && old(self).code().len() - (
            jmp_op_code_loc + 3) > MAX_JUMP ==> {
                &&& r == Err::<(), WriteError>(
                    WriteError::JumpTooLong(
                        (old(self).code().len() - (jmp_op_code_loc + 3)) as usize,
                    ),
                )
                &&& final(self).code() == old(self).code()
            },
            jmp_op_code_loc + 3 <= old(self).code().len() && old(self).code().len() - (
            jmp_op_code_loc + 3) <= MAX_JUMP ==> {
                let distance = old(self).code().len() - (jmp_op_code_loc + 3);
                &&& r == Ok::<(), WriteError>(())
                &&& final(self).code() == old(self).code().update(
                    jmp_op_code_loc + 1,
                    (distance / 256) as u8,
                ).update(jmp_op_code_loc + 2, (distance % 256) as u8)
            },
    {
        let len = self.chunk.len();
        if len < 3 || jmp_op_code_loc > len - 3 {
            return Err(WriteError::JumpOutOfRange(jmp_op_code_loc));
        }
        let distance = len - (jmp_op_code_loc + 3);
        if distance > MAX_JUMP {
            return Err(WriteError::JumpTooLong(distance));
        }
        let operand1 = (distance / 256) as u8;
        let operand2 = (distance % 256) as u8;
        let r = self.patch_operands(jmp_op_code_loc, Some(operand1), Some(operand2));
        assert(patch_fits(old(self).code(), jmp_op_code_loc as int, Some(operand1), Some(operand2)));
        r
    }

    /// Adds `value` to the constant pool and returns its index.
    pub fn add_constant(&mut self, value: Value) -> (r: Result<u8, WriteError>)
        requires
            old(self).wf(),
        ensures
            final(self).wf(),
            final(self).code() == old(self).code(),
            final(self).lines() == old(self).lines(),
            old(self).constants().len() < 256 ==> r == Ok::<u8, WriteError>(
                old(self).constants().len() as u8,
            ) && final(self).constants() == old(self).constants().push(value),
            old(self).constants().len() >= 256 ==> r == Err::<u8, WriteError>(
                WriteError::TooManyConstants,
            ) && final(self).constants() == old(self).constants(),
    {
        match self.chunk.add_constant(value) {
            Ok(index) => Ok(index),
            Err(_) => Err(WriteError::TooManyConstants),
        }
    }
}

/// Whether every operand given lies inside the code.
pub open spec fn patch_fits(
    code: Seq<u8>,
    at: int,
    operand1: Option<u8>,
    operand2: Option<u8>,
) -> bool {
    &&& operand1 is Some ==> at + 1 < code.len()
    &&& operand2 is Some ==> at + 2 < code.len()
}

/// The code after [`InstructionWriter::patch_operands`]: the first operand
/// is written if it lies inside the code, the second only if the first was
/// absent or written and it lies inside the code itself.
pub open spec fn patched(
    code: Seq<u8>,
    at: int,
    operand1: Option<u8>,
    operand2: Option<u8>,
) -> Seq<u8> {
    let first = if operand1 is Some && at + 1 < code.len() {
        code.update(at + 1, operand1->0)
    } else {
        code
    };
    if operand1 is Some && at + 1 >= code.len() {
        code
    } else if operand2 is Some && at + 2 < code.len() {
        first.update(at + 2, operand2->0)
    } else {
        first
    }
}

/// Reads the instructions of a chunk one after another, from an instruction
/// pointer that jumps can move.
pub struct InstructionReader<'a> {
    chunk: &'a Chunk,
    ip: usize,
}

impl<'a> InstructionReader<'a> {
    /// The chunk that is being read.
    pub closed spec fn chunk(&self) -> Chunk {
        *self.chunk
    }

    /// The instruction pointer: the offset of the next byte to read.
    pub closed spec fn ip(&self) -> int {
        self.ip as int
    }

    /// The instruction pointer lies inside the code or at its end.
    pub open spec fn wf(&self) -> bool {
        &&& self.chunk().wf()
        &&& 0 <= self.ip() <= self.chunk().code().len()
    }

    /// What a move of the instruction pointer to `target` leaves behind: the
    /// pointer is there if `target` lies inside the code or at its end, and
    /// where it was if not.
    pub open spec fn moved(&self, before: &Self, target: int) -> bool {
        &&& self.wf()
        &&& self.chunk() == before.chunk()
        &&& self.ip() == if 0 <= target <= before.chunk().code().len() {
            target
        } else {
            before.ip()
        }
    }

    pub fn new(chunk: &'a Chunk) -> (reader: Self)
        requires
            chunk.wf(),
        ensures
            reader.wf(),
            reader.chunk() == *chunk,
            reader.ip() == 0,
    {
        Self { chunk, ip: 0 }
    }

    /// The offset of the next byte to read.
    pub fn position(&self) -> (ip: usize)
        ensures
            ip == self.ip(),
    {
        self.ip
    }

    /// Reads the instruction at the instruction pointer and moves the
    /// pointer behind it.  Returns the instruction, the offset of its opcode
    /// and the source line of that byte; `None` at the end of the code.
    /// Fails on a byte that is no opcode, with the pointer behind that byte,
    /// and on operands that the code ends before, with the pointer at the
    /// end.
    pub fn read_next(&mut self) -> (r: Result<Option<(Instruction, usize, i32)>, ReadError>)
        requires
            old(self).wf(),
        ensures
            final(self).wf(),
            final(self).chunk() == old(self).chunk(),
            read_result(old(self).chunk().code(), old(self).chunk().lines(), old(self).ip())
                == (r, final(self).ip()),
    {
        let len = self.chunk.len();
        let code_byte = match self.chunk.read(self.ip) {
            Ok(c) => c,
            Err(_) => {
                return Ok(None);
            },
        };
        let instruction_offset = self.ip;
        let src_line_number = match self.chunk.get_src_line_number(self.ip) {
            Ok(line) => line,
            Err(_) => {
                return Err(ReadError::OffsetOutOfRange(instruction_offset));
            },
        };
        self.ip = self.ip + 1;
        let op_code = match OpCode::from_byte(code_byte) {
            Ok(op_code) => op_code,
            Err(e) => {
                return Err(e);
            },
        };
        let instruction = match op_code.operand_count() {
            0 => Instruction::simple(op_code),
            1 => {
                let operand1 = match self.chunk.read(self.ip) {
                    Ok(b) => b,
                    Err(_) => {
                        return Err(ReadError::OffsetOutOfRange(self.ip));
                    },
                };
                self.ip = self.ip + 1;
                Instruction::unary(op_code, operand1)
            },
            _ => {
                let operand1 = match self.chunk.read(self.ip) {
                    Ok(b) => b,
                    Err(_) => {
                        return Err(ReadError::OffsetOutOfRange(self.ip));
                    },
                };
                self.ip = self.ip + 1;
                let operand2 = match self.chunk.read(self.ip) {
                    Ok(b) => b,
                    Err(_) => {
                        return Err(ReadError::OffsetOutOfRange(self.ip));
                    },
                };
                self.ip = self.ip + 1;
                Instruction::binary(op_code, operand1, operand2)
            },
        };
        Ok(Some((instruction, instruction_offset, src_line_number)))
    }

    /// A copy of the constant at `index`.
    pub fn get_const(&self, index: usize) -> (r: Result<Value, ChunkError>)
        ensures
            index < self.chunk().constants().len() ==> r == Ok::<Value, ChunkError>(
                self.chunk().constants()[index as int],
            ),
            index >= self.chunk().constants().len() ==> r == Err::<Value, ChunkError>(
                ChunkError::IndexOutOfRange(index),
            ),
    {
        self.chunk.get_constant(index)
    }

    /// Moves the instruction pointer to `new_ip`, unless that lies behind
    /// the end of the code.
    pub fn set_ip(&mut self, new_ip: usize) -> (r: Result<(), ReadError>)
        requires
            old(self).wf(),
        ensures
            final(self).moved(old(self), new_ip as int),
            new_ip <= old(self).chunk().code().len() ==> r == Ok::<(), ReadError>(()),
            new_ip > old(self).chunk().code().len() ==> r == Err::<(), ReadError>(
                ReadError::IpBeyondChunk(new_ip),
            ),
    {
        if new_ip > self.chunk.len() {
            return Err(ReadError::IpBeyondChunk(new_ip));
        }
        self.ip = new_ip;
        Ok(())
    }

    /// Moves the instruction pointer forward by `inc` bytes, unless that
    /// leads behind the end of the code.  The error names the offset that
    /// was asked for, or the largest `usize` if it is beyond that.
    pub fn inc_ip(&mut self, inc: usize) -> (r: Result<(), ReadError>)
        requires
            old(self).wf(),
        ensures
            final(self).moved(old(self), old(self).ip() + inc),
            old(self).ip() + inc <= old(self).chunk().code().len() ==> r == Ok::<(), ReadError>(
                (),
            ),
            old(self).ip() + inc > old(self).chunk().code().len() ==> r == Err::<(), ReadError>(
                ReadError::IpBeyondChunk(
                    if old(self).ip() + inc <= usize::MAX {
                        (old(self).ip() + inc) as usize
                    } else {
                        usize::MAX
                    },
                ),
            ),
    {
        let len = self.chunk.len();
        if inc > usize::MAX - self.ip {
            return Err(ReadError::IpBeyondChunk(usize::MAX));
        }
        self.set_ip(self.ip + inc)
    }

    /// Moves the instruction pointer back by `dec` bytes, unless that leads
    /// before the start of the code.
    pub fn dec_ip(&mut self, dec: usize) -> (r: Result<(), ReadError>)
        requires
            old(self).wf(),
        ensures
            final(self).moved(old(self), old(self).ip() - dec),
            dec <= old(self).ip() ==> r == Ok::<(), ReadError>(()),
            dec > old(self).ip() ==> r == Err::<(), ReadError>(ReadError::IpBeforeStart(dec)),
    {
        if dec > self.ip {
            return Err(ReadError::IpBeforeStart(dec));
        }
        self.set_ip(self.ip - dec)
    }
}

/// What [`InstructionReader::read_next`] returns for code `code` with lines
/// `lines` when the instruction pointer is `ip`, and where it leaves the
/// pointer.
pub open spec fn read_result(code: Seq<u8>, lines: Seq<i32>, ip: int) -> (
    Result<Option<(Instruction, usize, i32)>, ReadError>,
    int,
) {
    if ip >= code.len() {
        (Ok(None), ip)
    } else {
        match OpCode::spec_from_byte(code[ip]) {
            None => (Err(ReadError::UnknownOpcode(code[ip])), ip + 1),
            Some(op_code) => match decode_at(code, ip) {
                Some(instruction) => (
                    Ok(Some((instruction, ip as usize, lines[ip]))),
                    ip + 1 + op_code.arity(),
                ),
                None => (
                    Err(ReadError::OffsetOutOfRange(code.len() as usize)),
                    code.len() as int,
                ),
            },
        }
    }
}

} // verus!
