//! Programs: sequences of instructions, where their encodings lie in the
//! code, and what it means for their jumps to land well.

use vstd::prelude::*;
use crate::chunk::Chunk;
use crate::instruction::{decode_at, encode, Instruction, OpCode};
use crate::value::Value;

verus! {

/// The number of bytes that encode an instruction.
pub open spec fn size(ins: Instruction) -> int {
    1 + ins.op_code.arity() as int
}

/// The offset of instruction `index` of a program in its code; for the
/// length of the program, the length of the code.
pub open spec fn offset_of(program: Seq<Instruction>, index: int) -> int
    decreases index,
{
    if index <= 0 {
        0
    } else {
        offset_of(program, index - 1) + size(program[index - 1])
    }
}

/// Every instruction carries exactly the operands of its opcode.
pub open spec fn all_wf(program: Seq<Instruction>) -> bool {
    forall|i: int| 0 <= i < program.len() ==> (#[trigger] program[i]).wf()
}

/// Whether an instruction of the program starts at `offset`, or the code
/// ends there.
pub open spec fn is_boundary(program: Seq<Instruction>, offset: int) -> bool {
    exists|j: int| 0 <= j <= program.len() && #[trigger] offset_of(program, j) == offset
}

/// Whether instruction `index`, if it is a jump, leads to the start of an
/// instruction or to the end of the code.  The distance of a jump counts
/// from the byte behind its operands: forward for `Jump` and `JumpIfFalse`,
/// backward for `Loop`.
pub open spec fn lands(program: Seq<Instruction>, index: int) -> bool {
    let after = offset_of(program, index) + 3;
    match program[index].op_code {
        OpCode::Jump | OpCode::JumpIfFalse => is_boundary(
            program,
            after + program[index].distance(),
        ),
        OpCode::Loop => is_boundary(program, after - program[index].distance()),
        _ => true,
    }
}

/// Whether instruction `index`, if it names a constant, names one that the
/// pool holds, and a string where it stands for a global.
pub open spec fn names_constant(
    program: Seq<Instruction>,
    constants: Seq<Value>,
    index: int,
) -> bool {
    match program[index].op_code {
        OpCode::Constant => program[index].operand1->0 < constants.len(),
        OpCode::DefineGlobal | OpCode::GetGlobal | OpCode::SetGlobal => {
            &&& program[index].operand1->0 < constants.len()
            &&& constants[program[index].operand1->0 as int] is String
        },
        _ => true,
    }
}

/// A program whose every jump lands on an instruction or at the end, and
/// whose every constant operand names a fitting constant.
pub open spec fn linked(program: Seq<Instruction>, constants: Seq<Value>) -> bool {
    &&& all_wf(program)
    &&& forall|i: int| 0 <= i < program.len() ==> #[trigger] lands(program, i)
    &&& forall|i: int| 0 <= i < program.len() ==> #[trigger] names_constant(program, constants, i)
}

/// The encoding of a program with one more instruction is the encoding of
/// the program followed by the bytes of the instruction.
pub proof fn lemma_encode_push(program: Seq<Instruction>, ins: Instruction)
    ensures
        encode(program.push(ins)) == encode(program) + ins.bytes(),
{
    assert(program.push(ins).drop_last() =~= program);
}

/// The bytes of an instruction are as many as its size says.
pub proof fn lemma_bytes_len(ins: Instruction)
    requires
        ins.wf(),
    ensures
        ins.bytes().len() == size(ins),
{
}

/// The code of a program is as long as the offset of its end.
pub proof fn lemma_encode_len(program: Seq<Instruction>)
    requires
        all_wf(program),
    ensures
        encode(program).len() == offset_of(program, program.len() as int),
    decreases program.len(),
{
    if program.len() > 0 {
        let head = program.drop_last();
        lemma_encode_len(head);
        lemma_offset_agrees(head, program, head.len() as int);
        lemma_bytes_len(program.last());
    }
}

/// Offsets depend only on the opcodes before them.
pub proof fn lemma_offset_agrees(p: Seq<Instruction>, q: Seq<Instruction>, index: int)
    requires
        index <= p.len(),
        index <= q.len(),
        forall|i: int| 0 <= i < index ==> (#[trigger] p[i]).op_code == q[i].op_code,
    ensures
        offset_of(p, index) == offset_of(q, index),
    decreases index,
{
    if index > 0 {
        lemma_offset_agrees(p, q, index - 1);
    }
}

/// Offsets grow with the index.
pub proof fn lemma_offset_grows(program: Seq<Instruction>, i: int, j: int)
    requires
        0 <= i <= j,
    ensures
        0 <= offset_of(program, i) <= offset_of(program, j),
        i < j ==> offset_of(program, i) + size(program[i]) <= offset_of(program, j),
    decreases j,
{
    if i < j {
        lemma_offset_grows(program, i, j - 1);
    } else if i > 0 {
        lemma_offset_grows(program, i - 1, i - 1);
        lemma_offset_grows(program, 0, i - 1);
    }
}

/// The bytes of instruction `index` lie in the code at its offset.
pub proof fn lemma_encode_at(program: Seq<Instruction>, index: int)
    requires
        all_wf(program),
        0 <= index < program.len(),
    ensures
        offset_of(program, index) + size(program[index]) <= encode(program).len(),
        encode(program).subrange(
            offset_of(program, index),
            offset_of(program, index) + size(program[index]),
        ) == program[index].bytes(),
    decreases program.len(),
{
    let head = program.drop_last();
    lemma_encode_len(head);
    lemma_bytes_len(program.last());
    lemma_offset_agrees(head, program, head.len() as int);
    if index == program.len() - 1 {
        assert(encode(program).subrange(
            offset_of(program, index),
            offset_of(program, index) + size(program[index]),
        ) =~= program[index].bytes());
    } else {
        lemma_encode_at(head, index);
        lemma_offset_agrees(head, program, index);
        lemma_offset_grows(head, 0, index);
        assert(head[index] == program[index]);
        assert(encode(program) == encode(head) + program.last().bytes());
        assert(offset_of(head, index) + size(head[index]) <= encode(head).len());
        assert(encode(program).subrange(
            offset_of(program, index),
            offset_of(program, index) + size(program[index]),
        ) =~= encode(head).subrange(
            offset_of(head, index),
            offset_of(head, index) + size(head[index]),
        ));
    }
}

/// Reading the code of a program at the offset of an instruction gives the
/// instruction back.
pub proof fn lemma_decode_encode(program: Seq<Instruction>, index: int)
    requires
        all_wf(program),
        0 <= index < program.len(),
    ensures
        decode_at(encode(program), offset_of(program, index)) == Some(program[index]),
{
    lemma_encode_at(program, index);
    lemma_offset_grows(program, 0, index);
    let code = encode(program);
    let at = offset_of(program, index);
    let ins = program[index];
    let part = code.subrange(at, at + size(ins));
    assert(part == ins.bytes());
    assert(code[at] == part[0]);
    assert(OpCode::spec_from_byte(ins.op_code.spec_byte()) == Some(ins.op_code));
    if ins.op_code.arity() >= 1 {
        assert(code[at + 1] == part[1]);
    }
    if ins.op_code.arity() >= 2 {
        assert(code[at + 2] == part[2]);
    }
}

/// Replacing the operands of a two-operand instruction changes the two
/// bytes behind its opcode and nothing else.
pub proof fn lemma_encode_patch(program: Seq<Instruction>, index: int, high: u8, low: u8)
    requires
        all_wf(program),
        0 <= index < program.len(),
        program[index].op_code.arity() == 2,
    ensures
        encode(
            program.update(
                index,
                Instruction {
                    op_code: program[index].op_code,
                    operand1: Some(high),
                    operand2: Some(low),
                },
            ),
        ) == encode(program).update(offset_of(program, index) + 1, high).update(
            offset_of(program, index) + 2,
            low,
        ),
        offset_of(program, index) + 3 <= encode(program).len(),
    decreases program.len(),
{
    let ins = Instruction {
        op_code: program[index].op_code,
        operand1: Some(high),
        operand2: Some(low),
    };
    let patched = program.update(index, ins);
    let head = program.drop_last();
    lemma_encode_len(head);
    lemma_encode_at(program, index);
    lemma_offset_agrees(head, program, head.len() as int);
    lemma_offset_grows(program, 0, index);
    if index == program.len() - 1 {
        assert(patched.drop_last() =~= head);
        assert(encode(patched) =~= encode(program).update(
            offset_of(program, index) + 1,
            high,
        ).update(offset_of(program, index) + 2, low));
    } else {
        lemma_encode_patch(head, index, high, low);
        lemma_offset_agrees(head, program, index);
        assert(patched.drop_last() =~= head.update(index, ins));
        assert(encode(patched) =~= encode(program).update(
            offset_of(program, index) + 1,
            high,
        ).update(offset_of(program, index) + 2, low));
    }
}

/// A jump that lands well still does when instructions are added behind
/// the program.
pub proof fn lemma_lands_extends(p: Seq<Instruction>, q: Seq<Instruction>, index: int)
    requires
        p.len() <= q.len(),
        forall|k: int| 0 <= k < p.len() ==> (#[trigger] p[k]) == q[k],
        0 <= index < p.len(),
        lands(p, index),
    ensures
        lands(q, index),
{
    lemma_offset_agrees(p, q, index);
    let after = offset_of(p, index) + 3;
    let op_code = p[index].op_code;
    if op_code == OpCode::Jump || op_code == OpCode::JumpIfFalse || op_code == OpCode::Loop {
        let target = if op_code == OpCode::Loop {
            after - p[index].distance()
        } else {
            after + p[index].distance()
        };
        assert(is_boundary(p, target));
        let j = choose|j: int| 0 <= j <= p.len() && #[trigger] offset_of(p, j) == target;
        lemma_offset_agrees(p, q, j);
        assert(offset_of(q, j) == target);
    }
}

/// A jump that lands well still does when the operands of another
/// instruction change.
pub proof fn lemma_lands_patched(
    p: Seq<Instruction>,
    at: int,
    patch: Instruction,
    index: int,
)
    requires
        0 <= at < p.len(),
        patch.op_code == p[at].op_code,
        0 <= index < p.len(),
        index != at,
        lands(p, index),
    ensures
        lands(p.update(at, patch), index),
{
    let q = p.update(at, patch);
    lemma_offset_agrees(p, q, index);
    let after = offset_of(p, index) + 3;
    let op_code = p[index].op_code;
    if op_code == OpCode::Jump || op_code == OpCode::JumpIfFalse || op_code == OpCode::Loop {
        let target = if op_code == OpCode::Loop {
            after - p[index].distance()
        } else {
            after + p[index].distance()
        };
        assert(is_boundary(p, target));
        let j = choose|j: int| 0 <= j <= p.len() && #[trigger] offset_of(p, j) == target;
        lemma_offset_agrees(p, q, j);
        assert(offset_of(q, j) == target);
    }
}

/// An instruction that names a fitting constant still does when
/// instructions are added behind the program and constants behind the pool.
pub proof fn lemma_names_constant_extends(
    p: Seq<Instruction>,
    q: Seq<Instruction>,
    constants: Seq<Value>,
    more: Seq<Value>,
    index: int,
)
    requires
        0 <= index < p.len() <= q.len(),
        p[index] == q[index],
        constants.len() <= more.len(),
        forall|k: int| 0 <= k < constants.len() ==> (#[trigger] constants[k]) == more[k],
        names_constant(p, constants, index),
    ensures
        names_constant(q, more, index),
{
}

/// Whether the code of the chunk is the encoding of `program`, a linked
/// program that ends in `Return`.
pub open spec fn compiled(chunk: Chunk, program: Seq<Instruction>) -> bool {
    &&& chunk.code() == encode(program)
    &&& linked(program, chunk.constants())
    &&& program.len() > 0
    &&& program.last() == (Instruction { op_code: OpCode::Return, operand1: None, operand2: None })
}

/// The instructions that a reader finds in the code from offset `at` on,
/// one behind the other, up to the end of the code or to the first byte
/// where no instruction can be read.
pub open spec fn decode_from(code: Seq<u8>, at: int) -> Seq<Instruction>
    decreases code.len() - at,
{
    match decode_at(code, at) {
        Some(ins) => seq![ins] + decode_from(code, at + size(ins)),
        None => Seq::<Instruction>::empty(),
    }
}

/// Whether the code is instructions from offset `at` to its end.
pub open spec fn decodes_from(code: Seq<u8>, at: int) -> bool
    decreases code.len() - at,
{
    if at == code.len() {
        true
    } else {
        match decode_at(code, at) {
            Some(ins) => decodes_from(code, at + size(ins)),
            None => false,
        }
    }
}

/// Every instruction that is read from code carries exactly the operands of
/// its opcode.
pub proof fn lemma_decode_at_wf(code: Seq<u8>, at: int)
    ensures
        decode_at(code, at) matches Some(ins) ==> ins.wf() && at + size(ins) <= code.len(),
{
}

/// Reading the code of a program from the offset of one of its instructions
/// gives the rest of the program, and reaches the end of the code.
pub proof fn lemma_decode_program(program: Seq<Instruction>, index: int)
    requires
        all_wf(program),
        0 <= index <= program.len(),
    ensures
        decode_from(encode(program), offset_of(program, index)) == program.skip(index),
        decodes_from(encode(program), offset_of(program, index)),
    decreases program.len() - index,
{
    let code = encode(program);
    let at = offset_of(program, index);
    lemma_encode_len(program);
    lemma_offset_grows(program, 0, index);
    if index == program.len() {
        assert(decode_at(code, at) is None);
        assert(program.skip(index) =~= Seq::<Instruction>::empty());
    } else {
        lemma_decode_encode(program, index);
        lemma_decode_program(program, index + 1);
        lemma_offset_grows(program, index, program.len() as int);
        assert(program.skip(index) =~= seq![program[index]] + program.skip(index + 1));
    }
}

/// Reading back the code of a program gives the program: every byte of the
/// code belongs to the instruction that wrote it.
pub proof fn lemma_round_trip(program: Seq<Instruction>)
    requires
        all_wf(program),
    ensures
        decode_from(encode(program), 0) == program,
        decodes_from(encode(program), 0),
        encode(decode_from(encode(program), 0)) == encode(program),
{
    lemma_decode_program(program, 0);
    assert(program.skip(0) =~= program);
}

} // verus!
