//! A listing of the instructions of a chunk, one line each.

use vstd::prelude::*;
use vstd::string::*;
use crate::chunk::Chunk;
use crate::instruction::{decode_at, Instruction, InstructionReader, OpCode};
use crate::program::{
    compiled,
    decode_from,
    decodes_from,
    lemma_decode_at_wf,
    lemma_round_trip,
    names_constant,
    offset_of,
    size,
};
use crate::text::{decimal, decimal_text, pad_left, pad_left_text, signed_decimal, signed_decimal_text};
use crate::value::{shows, Number, Value, ValueView};

verus! {

/// The first column of a line: the offset in at least four digits, and a
/// space.
pub open spec fn offset_column(offset: usize) -> Seq<char> {
    pad_left(decimal(offset as nat), 4, '0') + " "@
}

/// The second column of a line: the source line in at least four places, or
/// a bar where it is the source line of the line before, and a space.
pub open spec fn line_column(prev: Option<i32>, line: i32) -> Seq<char> {
    if prev == Some(line) {
        "   | "@
    } else {
        pad_left(signed_decimal(line as int), 4, ' ') + " "@
    }
}

/// An operand in at least four digits.
pub open spec fn operand_column(operand: u8) -> Seq<char> {
    pad_left(decimal(operand as nat), 4, '0')
}

/// What the listing shows of an instruction.
pub enum Listed {
    /// This line.
    Line(Seq<char>),
    /// This text, then the value between single quotes behind a space.
    WithValue(Seq<char>, ValueView),
    /// No line: the instruction cannot be listed, for this reason.
    Fault(Seq<char>),
}

/// What the listing shows of the instruction `ins`, read at `offset` from
/// source line `line`, when the line before was from source line `prev`.
/// An instruction with one operand is followed by what the operand stands
/// for: the stack slot, or the constant.
pub open spec fn listed(
    prev: Option<i32>,
    ins: Instruction,
    offset: usize,
    line: i32,
    constants: Seq<Value>,
) -> Listed {
    let start = offset_column(offset) + line_column(prev, line) + ins.op_code.spec_name();
    if ins.op_code.arity() == 1 {
        match ins.operand1 {
            Some(operand) => {
                let head = start + " "@ + operand_column(operand);
                if ins.op_code == OpCode::GetLocal || ins.op_code == OpCode::SetLocal {
                    Listed::Line(head + " 'Stack["@ + decimal(operand as nat) + "]'"@)
                } else if operand < constants.len() {
                    Listed::WithValue(head, constants[operand as int]@)
                } else {
                    Listed::Fault("Index "@ + decimal(operand as nat) + " is out range"@)
                }
            },
            None => Listed::Fault("Opcode "@ + ins.op_code.spec_name() + " has no operand"@),
        }
    } else if ins.op_code.arity() == 2 {
        match (ins.operand1, ins.operand2) {
            (Some(operand1), Some(operand2)) => Listed::Line(
                start + " "@ + operand_column(operand1) + " "@ + operand_column(operand2),
            ),
            _ => Listed::Fault(
                "Opcode "@ + ins.op_code.spec_name() + " has one or both operands missing"@,
            ),
        }
    } else {
        Listed::Line(start)
    }
}

/// Whether `r` is what the listing shows for `shown`, where `number_text`
/// renders the numbers.
pub open spec fn lists<F: Fn(Number) -> String>(
    shown: Listed,
    r: Result<String, String>,
    number_text: F,
) -> bool {
    match shown {
        Listed::Line(text) => r is Ok && r->Ok_0@ == text,
        Listed::WithValue(head, value) => r is Ok && exists|text: Seq<char>|
            {
                &&& #[trigger] shows(value, text, number_text)
                &&& r->Ok_0@ == head + " '"@ + text + "'"@
            },
        Listed::Fault(message) => r is Err && r->Err_0@ == message,
    }
}

/// Whether instruction `index` of the program, if it names a constant,
/// names one that the pool holds.
pub open spec fn shows_constant(
    program: Seq<Instruction>,
    constants: Seq<Value>,
    index: int,
) -> bool {
    let op_code = program[index].op_code;
    op_code.arity() == 1 && op_code != OpCode::GetLocal && op_code != OpCode::SetLocal
        ==> program[index].operand1->0 < constants.len()
}

/// Whether the code can be listed: it is instructions from start to end,
/// and the pool holds every constant that they name.
pub open spec fn listable(code: Seq<u8>, constants: Seq<Value>) -> bool {
    &&& decodes_from(code, 0)
    &&& forall|k: int|
        0 <= k < decode_from(code, 0).len() ==> #[trigger] shows_constant(
            decode_from(code, 0),
            constants,
            k,
        )
}

/// Why the listing of the code from offset `at` on fails, if it does: at
/// the first byte where no instruction can be read, or at the first
/// instruction that names a constant which the pool does not hold.
pub open spec fn first_fault(code: Seq<u8>, constants: Seq<Value>, at: int) -> Option<Seq<char>>
    decreases code.len() - at,
{
    if at >= code.len() {
        None
    } else {
        match decode_at(code, at) {
            None => Some("Failed to disassemble instruction"@),
            Some(ins) => if !shows_constant(seq![ins], constants, 0) {
                Some("Index "@ + decimal(ins.operand1->0 as nat) + " is out range"@)
            } else {
                first_fault(code, constants, at + size(ins))
            },
        }
    }
}

/// The source line that is remembered after a listing of the code from
/// offset `at` on, when `prev` was remembered before: that of the last
/// instruction that was read, whether it could be listed or not.
pub open spec fn line_after(
    code: Seq<u8>,
    lines: Seq<i32>,
    constants: Seq<Value>,
    at: int,
    prev: Option<i32>,
) -> Option<i32>
    decreases code.len() - at,
{
    if at >= code.len() {
        prev
    } else {
        match decode_at(code, at) {
            None => prev,
            Some(ins) => if !shows_constant(seq![ins], constants, 0) {
                Some(lines[at])
            } else {
                line_after(code, lines, constants, at + size(ins), Some(lines[at]))
            },
        }
    }
}

/// The source line of the line before that of instruction `index`: that
/// of the instruction before it, or `first` for the first instruction.
pub open spec fn line_before(
    first: Option<i32>,
    lines: Seq<i32>,
    program: Seq<Instruction>,
    index: int,
) -> Option<i32> {
    if index <= 0 {
        first
    } else {
        Some(lines[offset_of(program, index - 1)])
    }
}

/// What the listing shows of instruction `index` of the program of a
/// chunk, when the line before the listing was from source line `first`.
pub open spec fn listed_at(first: Option<i32>, chunk: Chunk, index: int) -> Listed {
    let program = decode_from(chunk.code(), 0);
    listed(
        line_before(first, chunk.lines(), program, index),
        program[index],
        offset_of(program, index) as usize,
        chunk.lines()[offset_of(program, index)],
        chunk.constants(),
    )
}

/// A chunk that the compiler made can be listed, and the listing has a line
/// for each instruction of its program.
pub proof fn lemma_compiled_is_listable(chunk: Chunk, program: Seq<Instruction>)
    requires
        compiled(chunk, program),
    ensures
        listable(chunk.code(), chunk.constants()),
        decode_from(chunk.code(), 0) == program,
{
    lemma_round_trip(program);
    assert forall|k: int| 0 <= k < program.len() implies #[trigger] shows_constant(
        program,
        chunk.constants(),
        k,
    ) by {
        assert(names_constant(program, chunk.constants(), k));
    }
}

/// Lists instructions; it remembers the source line of the line before.
#[derive(Debug)]
pub struct Disassembler {
    prev_src_line_number: Option<i32>,
}

impl Disassembler {
    /// The source line of the line listed last.
    pub closed spec fn prev_line(&self) -> Option<i32> {
        self.prev_src_line_number
    }

    pub fn new() -> (disassembler: Self)
        ensures
            disassembler.prev_line() is None,
    {
        Self { prev_src_line_number: None }
    }

    /// The title line of a listing.
    pub fn title(name: &str) -> (text: String)
        ensures
            text@ == "== "@ + name@ + " =="@,
    {
        String::from_str("== ").concat(name).concat(" ==")
    }

    /// The line of the listing for one instruction of the chunk that
    /// `reader` reads, read at `offset` from source line `src_line_number`.
    pub fn disassemble_instruction<'a, F: Fn(Number) -> String>(
        &mut self,
        reader: &InstructionReader<'a>,
        instruction: &Instruction,
        offset: usize,
        src_line_number: i32,
        number_text: &F,
    ) -> (r: Result<String, String>)
        requires
            forall|n: Number| call_requires(*number_text, (n,)),
        ensures
            final(self).prev_line() == Some(src_line_number),
            lists(
                listed(
                    old(self).prev_line(),
                    *instruction,
                    offset,
                    src_line_number,
                    reader.chunk().constants(),
                ),
                r,
                *number_text,
            ),
    {
        proof {
            reveal_strlit("0");
            reveal_strlit(" ");
        }
        let mut text = pad_left_text(decimal_text(offset as u64), 4, "0");
        text.append(" ");

        let same_src_line_no_as_prev = match self.prev_src_line_number {
            Some(prev) => prev == src_line_number,
            None => false,
        };
        if same_src_line_no_as_prev {
            text.append("   | ");
        } else {
            text.append(
                pad_left_text(signed_decimal_text(src_line_number as i64), 4, " ").as_str(),
            );
            text.append(" ");
        }
        self.prev_src_line_number = Some(src_line_number);
        text.append(instruction.op_code.name());
        proof {
            assert(text@ =~= offset_column(offset) + line_column(
                old(self).prev_line(),
                src_line_number,
            ) + instruction.op_code.spec_name());
        }

        match instruction.op_code.operand_count() {
            0 => Ok(text),
            1 => match instruction.operand1 {
                Some(operand1) => {
                    text.append(" ");
                    text.append(pad_left_text(decimal_text(operand1 as u64), 4, "0").as_str());
                    match instruction.op_code {
                        OpCode::GetLocal | OpCode::SetLocal => {
                            text.append(" 'Stack[");
                            text.append(decimal_text(operand1 as u64).as_str());
                            text.append("]'");
                            Ok(text)
                        },
                        _ => match reader.get_const(operand1 as usize) {
                            Ok(value) => {
                                let ghost head = text@;
                                let shown = value.to_text(number_text);
                                text.append(" '");
                                text.append(shown.as_str());
                                text.append("'");
                                proof {
                                    assert(shows(value@, shown@, *number_text));
                                    assert(text@ == head + " '"@ + shown@ + "'"@);
                                }
                                Ok(text)
                            },
                            Err(e) => Err(e.message()),
                        },
                    }
                },
                None => Err(
                    String::from_str("Opcode ").concat(instruction.op_code.name()).concat(
                        " has no operand",
                    ),
                ),
            },
            _ => match (instruction.operand1, instruction.operand2) {
                (Some(operand1), Some(operand2)) => {
                    text.append(" ");
                    text.append(pad_left_text(decimal_text(operand1 as u64), 4, "0").as_str());
                    text.append(" ");
                    text.append(pad_left_text(decimal_text(operand2 as u64), 4, "0").as_str());
                    Ok(text)
                },
                _ => Err(
                    String::from_str("Opcode ").concat(instruction.op_code.name()).concat(
                        " has one or both operands missing",
                    ),
                ),
            },
        }
    }

    /// Lists a chunk: the title line with `name`, then one line for each
    /// instruction.  Succeeds exactly on the chunks that are [`listable`],
    /// and fails on the others with their [`first_fault`].  The source line
    /// remembered afterwards is that of the last instruction that was read.
    pub fn disassemble<F: Fn(Number) -> String>(
        &mut self,
        chunk: &Chunk,
        name: &str,
        number_text: &F,
    ) -> (r: Result<Vec<String>, String>)
        requires
            chunk.wf(),
            forall|n: Number| call_requires(*number_text, (n,)),
        ensures
            r is Ok <==> listable(chunk.code(), chunk.constants()),
            r is Err ==> first_fault(chunk.code(), chunk.constants(), 0) == Some(r->Err_0@),
            final(self).prev_line() == line_after(
                chunk.code(),
                chunk.lines(),
                chunk.constants(),
                0,
                old(self).prev_line(),
            ),
            r is Ok ==> {
                let program = decode_from(chunk.code(), 0);
                &&& final(self).prev_line() == line_before(
                    old(self).prev_line(),
                    chunk.lines(),
                    program,
                    program.len() as int,
                )
                &&& r->Ok_0@.len() == program.len() + 1
                &&& r->Ok_0@[0]@ == "== "@ + name@ + " =="@
                &&& forall|k: int|
                    0 <= k < program.len() ==> lists(
                        #[trigger] listed_at(old(self).prev_line(), *chunk, k),
                        Ok(r->Ok_0@[k + 1]),
                        *number_text,
                    )
            },
    {
        let mut lines: Vec<String> = Vec::new();
        lines.push(Self::title(name));

        let mut reader = InstructionReader::new(chunk);
        let ghost program = decode_from(chunk.code(), 0);
        let ghost first = self.prev_line();
        let ghost mut count: int = 0;
        proof {
            assert(program.skip(0) =~= program);
        }
        loop
            invariant
                chunk.wf(),
                forall|n: Number| call_requires(*number_text, (n,)),
                reader.wf(),
                reader.chunk() == *chunk,
                program == decode_from(chunk.code(), 0),
                first == old(self).prev_line(),
                0 <= count <= program.len(),
                lines@.len() == count + 1,
                lines@[0]@ == "== "@ + name@ + " =="@,
                reader.ip() == offset_of(program, count),
                decode_from(chunk.code(), reader.ip()) == program.skip(count),
                decodes_from(chunk.code(), 0) == decodes_from(chunk.code(), reader.ip()),
                first_fault(chunk.code(), chunk.constants(), 0) == first_fault(
                    chunk.code(),
                    chunk.constants(),
                    reader.ip(),
                ),
                line_after(chunk.code(), chunk.lines(), chunk.constants(), 0, first) == line_after(
                    chunk.code(),
                    chunk.lines(),
                    chunk.constants(),
                    reader.ip(),
                    self.prev_line(),
                ),
                self.prev_line() == line_before(first, chunk.lines(), program, count),
                forall|k: int| 0 <= k < count ==> #[trigger] shows_constant(
                    program,
                    chunk.constants(),
                    k,
                ),
                forall|k: int|
                    0 <= k < count ==> lists(
                        #[trigger] listed_at(first, *chunk, k),
                        Ok(lines@[k + 1]),
                        *number_text,
                    ),
            ensures
                count == program.len(),
                decodes_from(chunk.code(), 0),
                self.prev_line() == line_after(
                    chunk.code(),
                    chunk.lines(),
                    chunk.constants(),
                    0,
                    first,
                ),
            decreases chunk.code().len() - reader.ip(),
        {
            let ghost ip = reader.ip();
            proof {
                lemma_decode_at_wf(chunk.code(), ip);
            }
            let read_result = match reader.read_next() {
                Ok(read_result) => read_result,
                Err(_) => {
                    return Err(String::from_str("Failed to disassemble instruction"));
                },
            };
            match read_result {
                Some((instruction, offset, src_line_number)) => {
                    proof {
                        assert(program.skip(count)[0] == instruction);
                        assert(program.skip(count + 1) =~= program.skip(count).skip(1));
                        assert((seq![instruction] + decode_from(
                            chunk.code(),
                            ip + size(instruction),
                        )).skip(1) =~= decode_from(chunk.code(), ip + size(instruction)));
                    }
                    let line = match self.disassemble_instruction(
                        &reader,
                        &instruction,
                        offset,
                        src_line_number,
                        number_text,
                    ) {
                        Ok(line) => line,
                        Err(e) => {
                            proof {
                                assert(!shows_constant(program, chunk.constants(), count));
                            }
                            return Err(e);
                        },
                    };
                    proof {
                        assert(listed_at(first, *chunk, count) == listed(
                            line_before(first, chunk.lines(), program, count),
                            instruction,
                            offset,
                            src_line_number,
                            chunk.constants(),
                        ));
                    }
                    lines.push(line);
                    proof {
                        count = count + 1;
                    }
                },
                None => {
                    proof {
                        assert(program.skip(count).len() == 0);
                    }
                    break;
                },
            }
        }
        Ok(lines)
    }
}

} // verus!
