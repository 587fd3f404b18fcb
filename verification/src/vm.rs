//! The stack machine: what each instruction does to the evaluation stack,
//! the globals and the instruction pointer.

use vstd::prelude::*;
use vstd::hash_map::StringHashMap;
use vstd::string::*;
use crate::instruction::{encode, read_result, Instruction, InstructionReader, OpCode};
use crate::program::{
    all_wf,
    is_boundary,
    lands,
    lemma_encode_len,
    lemma_offset_grows,
    names_constant,
    offset_of,
    size,
};
use crate::stack::{Stack, StackError};
use crate::text::{decimal, decimal_text, signed_decimal, signed_decimal_text};
use crate::value::{views, ArithOp, Number, Value, ValueView};

verus! {

/// The state that instructions act on.
pub struct VmState {
    /// The evaluation stack, from the bottom up.
    pub stack: Seq<ValueView>,
    /// The global variables by name.
    pub globals: Map<Seq<char>, ValueView>,
    /// The offset of the next instruction.
    pub ip: int,
}

impl VmState {
    /// The state with `value` pushed.
    pub open spec fn push(self, value: ValueView) -> VmState {
        VmState { stack: self.stack.push(value), ..self }
    }

    /// The state with the top `count` values taken off.
    pub open spec fn drop(self, count: int) -> VmState {
        VmState { stack: self.stack.take(self.stack.len() - count), ..self }
    }

    /// The value `pos` places below the top.
    pub open spec fn peek(self, pos: int) -> ValueView {
        self.stack[self.stack.len() - 1 - pos]
    }

    /// The state with the instruction pointer at `ip`.
    pub open spec fn at(self, ip: int) -> VmState {
        VmState { ip, ..self }
    }
}

/// What one instruction leads to.
pub enum Outcome {
    /// Execution goes on in this state.
    Continue(VmState),
    /// Execution goes on in the state `rest` with one more number pushed:
    /// the result of `op` on `lhs` and `rhs`.
    Compute { op: ArithOp, lhs: Number, rhs: Number, rest: VmState },
    /// The value is printed and execution goes on in this state.
    Print(ValueView, VmState),
    /// The program ends.
    Halt,
    /// The program is aborted with this message.
    Fault(Seq<char>),
}

pub open spec fn stack_underflow() -> Seq<char> {
    "Stack underflow"@
}

pub open spec fn stack_overflow() -> Seq<char> {
    "Stack overflow"@
}

pub open spec fn missing_first_operand(op_code: OpCode) -> Seq<char> {
    "Operand 1 missing on instruction "@ + op_code.spec_name()
}

pub open spec fn missing_second_operand(op_code: OpCode) -> Seq<char> {
    "Operand 2 missing on instruction "@ + op_code.spec_name()
}

pub open spec fn undefined_variable(name: Seq<char>) -> Seq<char> {
    "Undefined variable '"@ + name + "'"@
}

/// The name that the first operand of a globals instruction refers to: the
/// string constant at that index.  `Err` holds the message of the fault when
/// the operand is missing, no constant has the index, or the constant is no
/// string.
pub open spec fn global_name(ins: Instruction, constants: Seq<ValueView>) -> Result<
    Seq<char>,
    Seq<char>,
> {
    match ins.operand1 {
        None => Err(missing_first_operand(ins.op_code)),
        Some(index) => if index < constants.len() {
            match constants[index as int] {
                ValueView::String(name) => Ok(name),
                _ => Err("Global name at index "@ + decimal(index as nat) + " is not a string"@),
            }
        } else {
            Err("No global at index "@ + decimal(index as nat))
        },
    }
}

/// The distance that the operands of a jump hold, big-endian; `Err` holds
/// the message of the fault when an operand is missing.
pub open spec fn jump_distance(ins: Instruction) -> Result<int, Seq<char>> {
    match (ins.operand1, ins.operand2) {
        (None, _) => Err(missing_first_operand(ins.op_code)),
        (Some(_), None) => Err(missing_second_operand(ins.op_code)),
        (Some(high), Some(low)) => Ok(high * 256 + low),
    }
}

/// What a jump forward by `distance` leads to.
pub open spec fn jump_forward(pre: VmState, distance: int, code_len: int) -> Outcome {
    if pre.ip + distance <= code_len {
        Outcome::Continue(pre.at(pre.ip + distance))
    } else {
        Outcome::Fault("Jump beyond the end of the code"@)
    }
}

/// What an arithmetic instruction leads to: both operands must be numbers.
pub open spec fn arithmetic(op: ArithOp, pre: VmState) -> Outcome {
    if pre.stack.len() < 2 {
        Outcome::Fault(stack_underflow())
    } else {
        match (pre.peek(1), pre.peek(0)) {
            (ValueView::Number(lhs), ValueView::Number(rhs)) => Outcome::Compute {
                op,
                lhs,
                rhs,
                rest: pre.drop(2),
            },
            _ => Outcome::Fault("Numeric operation attempted on non-numeric values"@),
        }
    }
}

/// What a comparison leads to: the operands must be two numbers or two
/// strings.  `greater` asks whether the lower operand is above the upper
/// one.
pub open spec fn comparison(greater: bool, pre: VmState) -> Outcome {
    if pre.stack.len() < 2 {
        Outcome::Fault(stack_underflow())
    } else if !pre.peek(1).ordered_with(pre.peek(0)) {
        Outcome::Fault("Attempted to compare values that are not two numbers or two strings"@)
    } else if greater {
        Outcome::Continue(pre.drop(2).push(ValueView::Boolean(pre.peek(0).less(pre.peek(1)))))
    } else {
        Outcome::Continue(pre.drop(2).push(ValueView::Boolean(pre.peek(1).less(pre.peek(0)))))
    }
}

/// What the instruction `ins` leads to in state `pre`, where `pre.ip` is the
/// offset behind the instruction, `constants` is the constant pool and
/// `code_len` the length of the code.
pub open spec fn outcome(
    ins: Instruction,
    pre: VmState,
    constants: Seq<ValueView>,
    code_len: int,
) -> Outcome {
    match ins.op_code {
        OpCode::Constant => match ins.operand1 {
            None => Outcome::Fault("Opcode Constant has no operand"@),
            Some(index) => if index < constants.len() {
                Outcome::Continue(pre.push(constants[index as int]))
            } else {
                Outcome::Fault("Failed to get constant at index "@ + decimal(index as nat))
            },
        },
        OpCode::Return => Outcome::Halt,
        OpCode::Negate => if pre.stack.len() < 1 {
            Outcome::Fault(stack_underflow())
        } else {
            match pre.peek(0) {
                ValueView::Number(n) => Outcome::Continue(
                    pre.drop(1).push(ValueView::Number(n.spec_negated())),
                ),
                _ => Outcome::Fault("Attempt to negate a non-numeric value"@),
            }
        },
        OpCode::Add => if pre.stack.len() < 2 {
            Outcome::Fault(stack_underflow())
        } else {
            match (pre.peek(1), pre.peek(0)) {
                (ValueView::Number(lhs), ValueView::Number(rhs)) => Outcome::Compute {
                    op: ArithOp::Add,
                    lhs,
                    rhs,
                    rest: pre.drop(2),
                },
                (ValueView::String(a), ValueView::String(b)) => Outcome::Continue(
                    pre.drop(2).push(ValueView::String(a + b)),
                ),
                _ => Outcome::Fault(
                    "Attempted add or concatenate on non-numeric or non-string operands"@,
                ),
            }
        },
        OpCode::Subtract => arithmetic(ArithOp::Subtract, pre),
        OpCode::Multiply => arithmetic(ArithOp::Multiply, pre),
        OpCode::Divide => arithmetic(ArithOp::Divide, pre),
        OpCode::Nil => Outcome::Continue(pre.push(ValueView::Nil)),
        OpCode::True => Outcome::Continue(pre.push(ValueView::Boolean(true))),
        OpCode::False => Outcome::Continue(pre.push(ValueView::Boolean(false))),
        OpCode::Not => if pre.stack.len() < 1 {
            Outcome::Fault(stack_underflow())
        } else {
            match pre.peek(0) {
                ValueView::Boolean(b) => Outcome::Continue(
                    pre.drop(1).push(ValueView::Boolean(!b)),
                ),
                _ => Outcome::Fault("Attempted not on a non-bool value"@),
            }
        },
        OpCode::Equal => if pre.stack.len() < 2 {
            Outcome::Fault(stack_underflow())
        } else {
            Outcome::Continue(
                pre.drop(2).push(ValueView::Boolean(pre.peek(1).equals(pre.peek(0)))),
            )
        },
        OpCode::Greater => comparison(true, pre),
        OpCode::Less => comparison(false, pre),
        OpCode::Print => if pre.stack.len() < 1 {
            Outcome::Fault(stack_underflow())
        } else {
            Outcome::Print(pre.peek(0), pre.drop(1))
        },
        OpCode::Pop => if pre.stack.len() < 1 {
            Outcome::Fault(stack_underflow())
        } else {
            Outcome::Continue(pre.drop(1))
        },
        OpCode::DefineGlobal => match global_name(ins, constants) {
            Err(message) => Outcome::Fault(message),
            Ok(name) => if pre.stack.len() < 1 {
                Outcome::Fault(stack_underflow())
            } else {
                Outcome::Continue(
                    VmState { globals: pre.globals.insert(name, pre.peek(0)), ..pre.drop(1) },
                )
            },
        },
        OpCode::GetGlobal => match global_name(ins, constants) {
            Err(message) => Outcome::Fault(message),
            Ok(name) => if pre.globals.contains_key(name) {
                Outcome::Continue(pre.push(pre.globals[name]))
            } else {
                Outcome::Fault(undefined_variable(name))
            },
        },
        OpCode::SetGlobal => match global_name(ins, constants) {
            Err(message) => Outcome::Fault(message),
            Ok(name) => if !pre.globals.contains_key(name) {
                Outcome::Fault(undefined_variable(name))
            } else if pre.stack.len() < 1 {
                Outcome::Fault(stack_underflow())
            } else {
                Outcome::Continue(
                    VmState { globals: pre.globals.insert(name, pre.peek(0)), ..pre },
                )
            },
        },
        OpCode::GetLocal => match ins.operand1 {
            None => Outcome::Fault(missing_first_operand(ins.op_code)),
            Some(slot) => if slot < pre.stack.len() {
                Outcome::Continue(pre.push(pre.stack[slot as int]))
            } else {
                Outcome::Fault(stack_overflow())
            },
        },
        OpCode::SetLocal => match ins.operand1 {
            None => Outcome::Fault(missing_first_operand(ins.op_code)),
            Some(slot) => if pre.stack.len() < 1 {
                Outcome::Fault(stack_underflow())
            } else if slot < pre.stack.len() {
                Outcome::Continue(
                    VmState { stack: pre.stack.update(slot as int, pre.peek(0)), ..pre },
                )
            } else {
                Outcome::Fault(stack_overflow())
            },
        },
        OpCode::Jump => match jump_distance(ins) {
            Err(message) => Outcome::Fault(message),
            Ok(distance) => jump_forward(pre, distance, code_len),
        },
        OpCode::JumpIfFalse => match jump_distance(ins) {
            Err(message) => Outcome::Fault(message),
            Ok(distance) => if pre.stack.len() < 1 {
                Outcome::Fault(stack_underflow())
            } else {
                match pre.peek(0) {
                    ValueView::Boolean(b) => if b {
                        Outcome::Continue(pre)
                    } else {
                        jump_forward(pre, distance, code_len)
                    },
                    _ => Outcome::Fault("Can't jump. Non boolean value found on stack"@),
                }
            },
        },
        OpCode::Loop => match jump_distance(ins) {
            Err(message) => Outcome::Fault(message),
            Ok(distance) => if distance <= pre.ip {
                Outcome::Continue(pre.at(pre.ip - distance))
            } else {
                Outcome::Fault("Loop before the start of the code"@)
            },
        },
    }
}

/// A runtime error: a message and, where known, the instruction that
/// failed, the offset of its opcode and the source line of that byte.
#[derive(Debug)]
pub struct VmError {
    pub msg: String,
    pub details: Option<(Instruction, usize, i32)>,
}

impl VmError {
    pub fn new(msg: String, details: (Instruction, usize, i32)) -> (e: Self)
        ensures
            e.msg == msg,
            e.details == Some(details),
    {
        Self { msg, details: Some(details) }
    }

    pub fn from_msg(msg: String) -> (e: Self)
        ensures
            e.msg == msg,
            e.details == None::<(Instruction, usize, i32)>,
    {
        Self { msg, details: None }
    }

    /// The diagnostic: the message, behind the source line, the offset and
    /// the instruction in square brackets where they are known.
    pub open spec fn spec_text(&self) -> Seq<char> {
        match self.details {
            Some(details) => "[source line "@ + signed_decimal(details.2 as int)
                + ", byte code offset "@ + decimal(details.1 as nat) + ", inst '"@
                + details.0.spec_text() + "'] "@ + self.msg@,
            None => self.msg@,
        }
    }

    pub fn to_text(&self) -> (text: String)
        ensures
            text@ == self.spec_text(),
    {
        match &self.details {
            Some(details) => {
                let mut text = String::from_str("[source line ");
                text.append(signed_decimal_text(details.2 as i64).as_str());
                text.append(", byte code offset ");
                text.append(decimal_text(details.1 as u64).as_str());
                text.append(", inst '");
                text.append(details.0.to_text().as_str());
                text.append("'] ");
                text.append(self.msg.as_str());
                text
            },
            None => self.msg.clone(),
        }
    }
}

/// What the caller has to do after an instruction.
#[derive(Debug)]
pub enum Effect {
    /// Nothing: go on with the next instruction.
    Continue,
    /// Stop: the program has ended.
    Halt,
    /// Print the value, then go on with the next instruction.
    Print(Value),
}

/// The machine: an evaluation stack and the global variables.  It executes
/// one instruction at a time and leaves printing, and the arithmetic on
/// numbers, to its caller.
pub struct Vm {
    stack: Stack<Value>,
    globals: StringHashMap<Value>,
    trace: bool,
}

impl Vm {
    /// The evaluation stack, from the bottom up.
    pub closed spec fn stack(&self) -> Seq<ValueView> {
        views(self.stack@)
    }

    /// The global variables by name.
    pub closed spec fn globals(&self) -> Map<Seq<char>, ValueView> {
        self.globals@.map_values(|v: Value| v@)
    }

    /// Whether the caller asked for a trace of the execution.
    pub closed spec fn tracing(&self) -> bool {
        self.trace
    }

    /// The state of the machine when the instruction pointer is `ip`.
    pub open spec fn state(&self, ip: int) -> VmState {
        VmState { stack: self.stack(), globals: self.globals(), ip }
    }

    pub fn new(trace: bool) -> (vm: Self)
        ensures
            vm.stack() == Seq::<ValueView>::empty(),
            vm.globals() == Map::<Seq<char>, ValueView>::empty(),
            vm.tracing() == trace,
    {
        let vm = Self { stack: Stack::new(), globals: StringHashMap::new(), trace };
        assert(vm.stack() =~= Seq::<ValueView>::empty());
        assert(vm.globals() =~= Map::<Seq<char>, ValueView>::empty());
        vm
    }

    pub fn trace(&self) -> (trace: bool)
        ensures
            trace == self.tracing(),
    {
        self.trace
    }

    /// The number of values on the stack.
    pub fn stack_len(&self) -> (n: usize)
        ensures
            n == self.stack().len(),
    {
        self.stack.len()
    }

    /// A copy of the value `pos` places above the bottom of the stack.
    pub fn stack_value(&self, pos: usize) -> (r: Option<Value>)
        ensures
            pos < self.stack().len() ==> r is Some && r->0@ == self.stack()[pos as int],
            pos >= self.stack().len() ==> r is None,
    {
        match self.stack.peek_front(pos) {
            Ok(v) => Some(v.clone()),
            Err(_) => None,
        }
    }

    /// A copy of the value of the global `name`.
    pub fn global(&self, name: &str) -> (r: Option<Value>)
        ensures
            self.globals().contains_key(name@) ==> r is Some && r->0@ == self.globals()[name@],
            !self.globals().contains_key(name@) ==> r is None,
    {
        match self.globals.get(name) {
            Some(v) => Some(v.clone()),
            None => None,
        }
    }

    fn push(&mut self, value: Value)
        ensures
            final(self).stack() == old(self).stack().push(value@),
            final(self).globals() == old(self).globals(),
            final(self).tracing() == old(self).tracing(),
    {
        self.stack.push(value);
        assert(final(self).stack() =~= old(self).stack().push(value@));
    }

    fn pop(&mut self) -> (r: Result<Value, StackError>)
        ensures
            final(self).globals() == old(self).globals(),
            final(self).tracing() == old(self).tracing(),
            old(self).stack().len() == 0 ==> r is Err && r->Err_0 == StackError::Underflow
                && final(self).stack() == old(self).stack(),
            old(self).stack().len() > 0 ==> r is Ok && r->Ok_0@ == old(self).stack().last()
                && final(self).stack() == old(self).stack().drop_last(),
    {
        let r = self.stack.pop();
        assert(old(self).stack().len() > 0 ==> final(self).stack() =~= old(self).stack().drop_last());
        r
    }

    fn peek(&self, pos: usize) -> (r: Result<&Value, StackError>)
        ensures
            pos >= self.stack().len() ==> r is Err && r->Err_0 == StackError::Underflow,
            pos < self.stack().len() ==> r is Ok && r->Ok_0@ == self.stack()[self.stack().len()
                - 1 - pos],
    {
        self.stack.peek(pos)
    }

    /// The two values on top of the stack: the lower one, then the upper
    /// one.
    fn peek_two(&self) -> (r: Result<(&Value, &Value), StackError>)
        ensures
            self.stack().len() < 2 ==> r is Err && r->Err_0 == StackError::Underflow,
            self.stack().len() >= 2 ==> {
                &&& r is Ok
                &&& r->Ok_0.0@ == self.state(0).peek(1)
                &&& r->Ok_0.1@ == self.state(0).peek(0)
            },
    {
        let upper = match self.stack.peek(0) {
            Ok(v) => v,
            Err(e) => {
                return Err(e);
            },
        };
        let lower = match self.stack.peek(1) {
            Ok(v) => v,
            Err(e) => {
                return Err(e);
            },
        };
        Ok((lower, upper))
    }

    /// Puts `value` in the place of the value on top of the stack.
    fn replace_one(&mut self, value: Value)
        requires
            old(self).stack().len() >= 1,
        ensures
            final(self).globals() == old(self).globals(),
            final(self).tracing() == old(self).tracing(),
            final(self).stack() == old(self).state(0).drop(1).stack.push(value@),
    {
        let _ = self.pop_one();
        self.push(value);
    }

    /// Puts `value` in the place of the two values on top of the stack.
    fn replace_two(&mut self, value: Value)
        requires
            old(self).stack().len() >= 2,
        ensures
            final(self).globals() == old(self).globals(),
            final(self).tracing() == old(self).tracing(),
            final(self).stack() == old(self).state(0).drop(2).stack.push(value@),
    {
        let _ = self.pop_one();
        let _ = self.pop_one();
        proof {
            assert(self.stack() =~= old(self).state(0).drop(2).stack);
        }
        self.push(value);
    }

    fn pop_one(&mut self) -> (r: Result<Value, StackError>)
        ensures
            final(self).globals() == old(self).globals(),
            final(self).tracing() == old(self).tracing(),
            old(self).stack().len() < 1 ==> r is Err && r->Err_0 == StackError::Underflow
                && final(self).stack() == old(self).stack(),
            old(self).stack().len() >= 1 ==> {
                &&& r is Ok
                &&& r->Ok_0@ == old(self).state(0).peek(0)
                &&& final(self).stack() == old(self).state(0).drop(1).stack
            },
    {
        let r = self.pop();
        assert(old(self).stack().len() >= 1 ==> final(self).stack() =~= old(self).state(0).drop(1).stack);
        r
    }

    fn define(&mut self, name: String, value: Value)
        ensures
            final(self).stack() == old(self).stack(),
            final(self).tracing() == old(self).tracing(),
            final(self).globals() == old(self).globals().insert(name@, value@),
    {
        self.globals.insert(name, value);
        assert(final(self).globals() =~= old(self).globals().insert(name@, value@));
    }

    fn lookup(&self, name: &str) -> (r: Option<Value>)
        ensures
            self.globals().contains_key(name@) ==> r is Some && r->0@ == self.globals()[name@],
            !self.globals().contains_key(name@) ==> r is None,
    {
        self.global(name)
    }

    fn set_local(&mut self, slot: usize, value: Value) -> (r: Result<(), StackError>)
        ensures
            final(self).globals() == old(self).globals(),
            final(self).tracing() == old(self).tracing(),
            slot >= old(self).stack().len() ==> r is Err && r->Err_0 == StackError::Overflow
                && final(self).stack() == old(self).stack(),
            slot < old(self).stack().len() ==> r is Ok && final(self).stack()
                == old(self).stack().update(slot as int, value@),
    {
        let r = self.stack.set_front(slot, value);
        assert(slot < old(self).stack().len() ==> final(self).stack() =~= old(self).stack().update(slot as int, value@));
        r
    }

    /// The name that the first operand of a globals instruction refers to,
    /// or the message of the fault.
    fn get_global_name(instruction: &Instruction, reader: &InstructionReader) -> (r: Result<
        String,
        String,
    >)
        ensures
            match global_name(*instruction, views(reader.chunk().constants())) {
                Ok(name) => r is Ok && r->Ok_0@ == name,
                Err(message) => r is Err && r->Err_0@ == message,
            },
    {
        let index = match Self::get_operand1(instruction) {
            Ok(index) => index,
            Err(message) => {
                return Err(message);
            },
        };
        match reader.get_const(index as usize) {
            Ok(Value::String(name)) => Ok(name),
            Ok(_) => Err(
                String::from_str("Global name at index ").concat(
                    decimal_text(index as u64).as_str(),
                ).concat(" is not a string"),
            ),
            Err(_) => Err(
                String::from_str("No global at index ").concat(decimal_text(index as u64).as_str()),
            ),
        }
    }

    fn get_operand1(instruction: &Instruction) -> (r: Result<u8, String>)
        ensures
            match instruction.operand1 {
                Some(operand) => r == Ok::<u8, String>(operand),
                None => r is Err && r->Err_0@ == missing_first_operand(instruction.op_code),
            },
    {
        match instruction.operand1 {
            Some(operand) => Ok(operand),
            None => Err(
                String::from_str("Operand 1 missing on instruction ").concat(
                    instruction.op_code.name(),
                ),
            ),
        }
    }

    fn get_operand2(instruction: &Instruction) -> (r: Result<u8, String>)
        ensures
            match instruction.operand2 {
                Some(operand) => r == Ok::<u8, String>(operand),
                None => r is Err && r->Err_0@ == missing_second_operand(instruction.op_code),
            },
    {
        match instruction.operand2 {
            Some(operand) => Ok(operand),
            None => Err(
                String::from_str("Operand 2 missing on instruction ").concat(
                    instruction.op_code.name(),
                ),
            ),
        }
    }

    /// The two operands of a jump as one big-endian number, or the message
    /// of the fault.
    fn read_operands_as_usize(instruction: &Instruction) -> (r: Result<usize, String>)
        ensures
            match jump_distance(*instruction) {
                Ok(distance) => r == Ok::<usize, String>(distance as usize) && 0 <= distance
                    <= 65535,
                Err(message) => r is Err && r->Err_0@ == message,
            },
    {
        let op1 = match Self::get_operand1(instruction) {
            Ok(operand) => operand as usize,
            Err(message) => {
                return Err(message);
            },
        };
        let op2 = match Self::get_operand2(instruction) {
            Ok(operand) => operand as usize,
            Err(message) => {
                return Err(message);
            },
        };
        Ok(op1 * 256 + op2)
    }

    /// Puts what `arith` makes of the two numbers on top of the stack under
    /// `op` in their place.  Fails, changing nothing, unless two numbers are
    /// there.
    fn num_binary_op<F: Fn(ArithOp, Number, Number) -> Number>(
        &mut self,
        op: ArithOp,
        arith: &F,
    ) -> (r: Result<(), String>)
        requires
            forall|o: ArithOp, a: Number, b: Number| call_requires(*arith, (o, a, b)),
        ensures
            final(self).tracing() == old(self).tracing(),
            final(self).globals() == old(self).globals(),
            match arithmetic(op, old(self).state(0)) {
                Outcome::Compute { op: o, lhs, rhs, rest } => r is Ok && exists|n: Number|
                    {
                        &&& #[trigger] call_ensures(*arith, (o, lhs, rhs), n)
                        &&& final(self).stack() == rest.stack.push(ValueView::Number(n))
                    },
                Outcome::Fault(message) => r is Err && r->Err_0@ == message && final(self).stack() == old(self).stack(),
                _ => false,
            },
    {
        let ghost pre = old(self).state(0);
        let n = match self.peek_two() {
            Ok((Value::Number(lhs), Value::Number(rhs))) => {
                let n = arith(op, *lhs, *rhs);
                proof {
                    assert(pre.peek(1) == ValueView::Number(*lhs));
                    assert(pre.peek(0) == ValueView::Number(*rhs));
                    assert(call_ensures(*arith, (op, *lhs, *rhs), n));
                }
                n
            },
            Ok(_) => {
                return Err(String::from_str("Numeric operation attempted on non-numeric values"));
            },
            Err(e) => {
                return Err(e.message());
            },
        };
        self.replace_two(Value::Number(n));
        Ok(())
    }

    fn fault(message: String, details: (Instruction, usize, i32)) -> (r: Result<
        Effect,
        VmError,
    >)
        ensures
            r is Err,
            r->Err_0.msg == message,
            r->Err_0.details == Some(details),
    {
        Err(VmError::new(message, details))
    }

    fn jump<'a>(
        reader: &mut InstructionReader<'a>,
        distance: usize,
        details: (Instruction, usize, i32),
    ) -> (r: Result<Effect, VmError>)
        requires
            old(reader).wf(),
        ensures
            final(reader).wf(),
            final(reader).chunk() == old(reader).chunk(),
            old(reader).ip() + distance <= old(reader).chunk().code().len() ==> {
                &&& r matches Ok(Effect::Continue)
                &&& final(reader).ip() == old(reader).ip() + distance
            },
            old(reader).ip() + distance > old(reader).chunk().code().len() ==> {
                &&& r is Err
                &&& r->Err_0.msg@ == "Jump beyond the end of the code"@
                &&& r->Err_0.details == Some(details)
                &&& final(reader).ip() == old(reader).ip()
            },
    {
        match reader.inc_ip(distance) {
            Ok(()) => Ok(Effect::Continue),
            Err(_) => Self::fault(String::from_str("Jump beyond the end of the code"), details),
        }
    }

    /// Pushes a constant or a literal, or ends the program.
    fn execute_load<'a, F: Fn(ArithOp, Number, Number) -> Number>(
        &mut self,
        reader: &mut InstructionReader<'a>,
        instruction: &Instruction,
        offset: usize,
        src_line_number: i32,
        arith: &F,
    ) -> (r: Result<Effect, VmError>)
        requires
            old(reader).wf(),
            forall|o: ArithOp, a: Number, b: Number| call_requires(*arith, (o, a, b)),
            instruction.op_code == OpCode::Constant
                || instruction.op_code == OpCode::Return
                || instruction.op_code == OpCode::Nil
                || instruction.op_code == OpCode::True
                || instruction.op_code == OpCode::False,
        ensures
            final(reader).wf(),
            final(reader).chunk() == old(reader).chunk(),
            final(self).tracing() == old(self).tracing(),
            follows(
                outcome(
                    *instruction,
                    old(self).state(old(reader).ip()),
                    views(old(reader).chunk().constants()),
                    old(reader).chunk().code().len() as int,
                ),
                old(self).state(old(reader).ip()),
                final(self).state(final(reader).ip()),
                r,
                *arith,
                (*instruction, offset, src_line_number),
            ),
    {
        let details = (*instruction, offset, src_line_number);
        match instruction.op_code {
            OpCode::Constant => match instruction.operand1 {
                Some(index) => match reader.get_const(index as usize) {
                    Ok(value) => {
                        self.push(value);
                        Ok(Effect::Continue)
                    },
                    Err(_) => Self::fault(
                        String::from_str("Failed to get constant at index ").concat(
                            decimal_text(index as u64).as_str(),
                        ),
                        details,
                    ),
                },
                None => Self::fault(String::from_str("Opcode Constant has no operand"), details),
            },
            OpCode::Return => Ok(Effect::Halt),
            OpCode::Nil => {
                self.push(Value::Nil);
                Ok(Effect::Continue)
            },
            OpCode::True => {
                self.push(Value::Boolean(true));
                Ok(Effect::Continue)
            },
            _ => {
                self.push(Value::Boolean(false));
                Ok(Effect::Continue)
            },
        }
    }

    /// Executes an instruction that takes one value off the stack.
    fn execute_unary<'a, F: Fn(ArithOp, Number, Number) -> Number>(
        &mut self,
        reader: &mut InstructionReader<'a>,
        instruction: &Instruction,
        offset: usize,
        src_line_number: i32,
        arith: &F,
    ) -> (r: Result<Effect, VmError>)
        requires
            old(reader).wf(),
            forall|o: ArithOp, a: Number, b: Number| call_requires(*arith, (o, a, b)),
            instruction.op_code == OpCode::Negate
                || instruction.op_code == OpCode::Not
                || instruction.op_code == OpCode::Print
                || instruction.op_code == OpCode::Pop,
        ensures
            final(reader).wf(),
            final(reader).chunk() == old(reader).chunk(),
            final(self).tracing() == old(self).tracing(),
            follows(
                outcome(
                    *instruction,
                    old(self).state(old(reader).ip()),
                    views(old(reader).chunk().constants()),
                    old(reader).chunk().code().len() as int,
                ),
                old(self).state(old(reader).ip()),
                final(self).state(final(reader).ip()),
                r,
                *arith,
                (*instruction, offset, src_line_number),
            ),
    {
        let details = (*instruction, offset, src_line_number);
        match instruction.op_code {
            OpCode::Negate => {
                let negated = match self.peek(0) {
                    Ok(Value::Number(n)) => n.negate(),
                    Ok(_) => {
                        return Self::fault(
                            String::from_str("Attempt to negate a non-numeric value"),
                            details,
                        );
                    },
                    Err(e) => {
                        return Self::fault(e.message(), details);
                    },
                };
                self.replace_one(Value::Number(negated));
                Ok(Effect::Continue)
            },
            OpCode::Not => {
                let negated = match self.peek(0) {
                    Ok(Value::Boolean(b)) => !*b,
                    Ok(_) => {
                        return Self::fault(
                            String::from_str("Attempted not on a non-bool value"),
                            details,
                        );
                    },
                    Err(e) => {
                        return Self::fault(e.message(), details);
                    },
                };
                self.replace_one(Value::Boolean(negated));
                Ok(Effect::Continue)
            },
            OpCode::Print => match self.pop_one() {
                Ok(value) => Ok(Effect::Print(value)),
                Err(e) => Self::fault(e.message(), details),
            },
            _ => match self.pop_one() {
                Ok(_) => Ok(Effect::Continue),
                Err(e) => Self::fault(e.message(), details),
            },
        }
    }

    /// Executes an arithmetic instruction.
    fn execute_arithmetic<'a, F: Fn(ArithOp, Number, Number) -> Number>(
        &mut self,
        reader: &mut InstructionReader<'a>,
        instruction: &Instruction,
        offset: usize,
        src_line_number: i32,
        arith: &F,
    ) -> (r: Result<Effect, VmError>)
        requires
            old(reader).wf(),
            forall|o: ArithOp, a: Number, b: Number| call_requires(*arith, (o, a, b)),
            instruction.op_code == OpCode::Add
                || instruction.op_code == OpCode::Subtract
                || instruction.op_code == OpCode::Multiply
                || instruction.op_code == OpCode::Divide,
        ensures
            final(reader).wf(),
            final(reader).chunk() == old(reader).chunk(),
            final(self).tracing() == old(self).tracing(),
            follows(
                outcome(
                    *instruction,
                    old(self).state(old(reader).ip()),
                    views(old(reader).chunk().constants()),
                    old(reader).chunk().code().len() as int,
                ),
                old(self).state(old(reader).ip()),
                final(self).state(final(reader).ip()),
                r,
                *arith,
                (*instruction, offset, src_line_number),
            ),
    {
        let details = (*instruction, offset, src_line_number);
        match instruction.op_code {
            OpCode::Add => {
                let sum = match self.peek_two() {
                    Ok((Value::Number(lhs), Value::Number(rhs))) => {
                        let n = arith(ArithOp::Add, *lhs, *rhs);
                        proof {
                            assert(call_ensures(*arith, (ArithOp::Add, *lhs, *rhs), n));
                        }
                        Value::Number(n)
                    },
                    Ok((Value::String(a), Value::String(b))) => Value::String(
                        a.clone().concat(b.as_str()),
                    ),
                    Ok(_) => {
                        return Self::fault(
                            String::from_str(
                                "Attempted add or concatenate on non-numeric or non-string operands",
                            ),
                            details,
                        );
                    },
                    Err(e) => {
                        return Self::fault(e.message(), details);
                    },
                };
                self.replace_two(sum);
                Ok(Effect::Continue)
            },
            OpCode::Subtract => match self.num_binary_op(ArithOp::Subtract, arith) {
                Ok(()) => Ok(Effect::Continue),
                Err(message) => Self::fault(message, details),
            },
            OpCode::Multiply => match self.num_binary_op(ArithOp::Multiply, arith) {
                Ok(()) => Ok(Effect::Continue),
                Err(message) => Self::fault(message, details),
            },
            _ => match self.num_binary_op(ArithOp::Divide, arith) {
                Ok(()) => Ok(Effect::Continue),
                Err(message) => Self::fault(message, details),
            },
        }
    }

    /// Executes a comparison.
    fn execute_comparison<'a, F: Fn(ArithOp, Number, Number) -> Number>(
        &mut self,
        reader: &mut InstructionReader<'a>,
        instruction: &Instruction,
        offset: usize,
        src_line_number: i32,
        arith: &F,
    ) -> (r: Result<Effect, VmError>)
        requires
            old(reader).wf(),
            forall|o: ArithOp, a: Number, b: Number| call_requires(*arith, (o, a, b)),
            instruction.op_code == OpCode::Equal
                || instruction.op_code == OpCode::Greater
                || instruction.op_code == OpCode::Less,
        ensures
            final(reader).wf(),
            final(reader).chunk() == old(reader).chunk(),
            final(self).tracing() == old(self).tracing(),
            follows(
                outcome(
                    *instruction,
                    old(self).state(old(reader).ip()),
                    views(old(reader).chunk().constants()),
                    old(reader).chunk().code().len() as int,
                ),
                old(self).state(old(reader).ip()),
                final(self).state(final(reader).ip()),
                r,
                *arith,
                (*instruction, offset, src_line_number),
            ),
    {
        let details = (*instruction, offset, src_line_number);
        match instruction.op_code {
            OpCode::Equal => {
                let equal = match self.peek_two() {
                    Ok((lower, upper)) => lower.equals(upper),
                    Err(e) => {
                        return Self::fault(e.message(), details);
                    },
                };
                self.replace_two(Value::Boolean(equal));
                Ok(Effect::Continue)
            },
            OpCode::Greater => {
                let greater = match self.peek_two() {
                    Ok((lower, upper)) => {
                        if !lower.ordered_with(upper) {
                            return Self::fault(
                                String::from_str(
                                    "Attempted to compare values that are not two numbers or two strings",
                                ),
                                details,
                            );
                        }
                        upper.less(lower)
                    },
                    Err(e) => {
                        return Self::fault(e.message(), details);
                    },
                };
                self.replace_two(Value::Boolean(greater));
                Ok(Effect::Continue)
            },
            _ => {
                let less = match self.peek_two() {
                    Ok((lower, upper)) => {
                        if !lower.ordered_with(upper) {
                            return Self::fault(
                                String::from_str(
                                    "Attempted to compare values that are not two numbers or two strings",
                                ),
                                details,
                            );
                        }
                        lower.less(upper)
                    },
                    Err(e) => {
                        return Self::fault(e.message(), details);
                    },
                };
                self.replace_two(Value::Boolean(less));
                Ok(Effect::Continue)
            },
        }
    }

    /// Defines, reads or assigns a global variable.
    fn execute_global<'a, F: Fn(ArithOp, Number, Number) -> Number>(
        &mut self,
        reader: &mut InstructionReader<'a>,
        instruction: &Instruction,
        offset: usize,
        src_line_number: i32,
        arith: &F,
    ) -> (r: Result<Effect, VmError>)
        requires
            old(reader).wf(),
            forall|o: ArithOp, a: Number, b: Number| call_requires(*arith, (o, a, b)),
            instruction.op_code == OpCode::DefineGlobal
                || instruction.op_code == OpCode::GetGlobal
                || instruction.op_code == OpCode::SetGlobal,
        ensures
            final(reader).wf(),
            final(reader).chunk() == old(reader).chunk(),
            final(self).tracing() == old(self).tracing(),
            follows(
                outcome(
                    *instruction,
                    old(self).state(old(reader).ip()),
                    views(old(reader).chunk().constants()),
                    old(reader).chunk().code().len() as int,
                ),
                old(self).state(old(reader).ip()),
                final(self).state(final(reader).ip()),
                r,
                *arith,
                (*instruction, offset, src_line_number),
            ),
    {
        let details = (*instruction, offset, src_line_number);
        match instruction.op_code {
            OpCode::DefineGlobal => {
                let name = match Self::get_global_name(instruction, reader) {
                    Ok(name) => name,
                    Err(message) => {
                        return Self::fault(message, details);
                    },
                };
                match self.pop_one() {
                    Ok(value) => {
                        self.define(name, value);
                        Ok(Effect::Continue)
                    },
                    Err(e) => Self::fault(e.message(), details),
                }
            },
            OpCode::GetGlobal => {
                let name = match Self::get_global_name(instruction, reader) {
                    Ok(name) => name,
                    Err(message) => {
                        return Self::fault(message, details);
                    },
                };
                match self.lookup(name.as_str()) {
                    Some(value) => {
                        self.push(value);
                        Ok(Effect::Continue)
                    },
                    None => Self::fault(
                        String::from_str("Undefined variable '").concat(name.as_str()).concat("'"),
                        details,
                    ),
                }
            },
            _ => {
                let name = match Self::get_global_name(instruction, reader) {
                    Ok(name) => name,
                    Err(message) => {
                        return Self::fault(message, details);
                    },
                };
                if self.lookup(name.as_str()).is_none() {
                    return Self::fault(
                        String::from_str("Undefined variable '").concat(name.as_str()).concat("'"),
                        details,
                    );
                }
                let value = match self.peek(0) {
                    Ok(value) => value.clone(),
                    Err(e) => {
                        return Self::fault(e.message(), details);
                    },
                };
                self.define(name, value);
                Ok(Effect::Continue)
            },
        }
    }

    /// Reads or assigns a stack slot.
    fn execute_local<'a, F: Fn(ArithOp, Number, Number) -> Number>(
        &mut self,
        reader: &mut InstructionReader<'a>,
        instruction: &Instruction,
        offset: usize,
        src_line_number: i32,
        arith: &F,
    ) -> (r: Result<Effect, VmError>)
        requires
            old(reader).wf(),
            forall|o: ArithOp, a: Number, b: Number| call_requires(*arith, (o, a, b)),
            instruction.op_code == OpCode::GetLocal || instruction.op_code == OpCode::SetLocal,
        ensures
            final(reader).wf(),
            final(reader).chunk() == old(reader).chunk(),
            final(self).tracing() == old(self).tracing(),
            follows(
                outcome(
                    *instruction,
                    old(self).state(old(reader).ip()),
                    views(old(reader).chunk().constants()),
                    old(reader).chunk().code().len() as int,
                ),
                old(self).state(old(reader).ip()),
                final(self).state(final(reader).ip()),
                r,
                *arith,
                (*instruction, offset, src_line_number),
            ),
    {
        let details = (*instruction, offset, src_line_number);
        match instruction.op_code {
            OpCode::GetLocal => {
                let slot = match Self::get_operand1(instruction) {
                    Ok(slot) => slot,
                    Err(message) => {
                        return Self::fault(message, details);
                    },
                };
                match self.stack_value(slot as usize) {
                    Some(value) => {
                        self.push(value);
                        Ok(Effect::Continue)
                    },
                    None => Self::fault(StackError::Overflow.message(), details),
                }
            },
            _ => {
                let slot = match Self::get_operand1(instruction) {
                    Ok(slot) => slot,
                    Err(message) => {
                        return Self::fault(message, details);
                    },
                };
                let value = match self.peek(0) {
                    Ok(value) => value.clone(),
                    Err(e) => {
                        return Self::fault(e.message(), details);
                    },
                };
                match self.set_local(slot as usize, value) {
                    Ok(()) => Ok(Effect::Continue),
                    Err(e) => Self::fault(e.message(), details),
                }
            },
        }
    }

    /// Executes a jump.
    fn execute_jump<'a, F: Fn(ArithOp, Number, Number) -> Number>(
        &mut self,
        reader: &mut InstructionReader<'a>,
        instruction: &Instruction,
        offset: usize,
        src_line_number: i32,
        arith: &F,
    ) -> (r: Result<Effect, VmError>)
        requires
            old(reader).wf(),
            forall|o: ArithOp, a: Number, b: Number| call_requires(*arith, (o, a, b)),
            instruction.op_code == OpCode::Jump
                || instruction.op_code == OpCode::JumpIfFalse
                || instruction.op_code == OpCode::Loop,
        ensures
            final(reader).wf(),
            final(reader).chunk() == old(reader).chunk(),
            final(self).tracing() == old(self).tracing(),
            follows(
                outcome(
                    *instruction,
                    old(self).state(old(reader).ip()),
                    views(old(reader).chunk().constants()),
                    old(reader).chunk().code().len() as int,
                ),
                old(self).state(old(reader).ip()),
                final(self).state(final(reader).ip()),
                r,
                *arith,
                (*instruction, offset, src_line_number),
            ),
    {
        let details = (*instruction, offset, src_line_number);
        match instruction.op_code {
            OpCode::Jump => {
                let distance = match Self::read_operands_as_usize(instruction) {
                    Ok(distance) => distance,
                    Err(message) => {
                        return Self::fault(message, details);
                    },
                };
                Self::jump(reader, distance, details)
            },
            OpCode::JumpIfFalse => {
                let distance = match Self::read_operands_as_usize(instruction) {
                    Ok(distance) => distance,
                    Err(message) => {
                        return Self::fault(message, details);
                    },
                };
                let condition = match self.peek(0) {
                    Ok(Value::Boolean(b)) => *b,
                    Ok(_) => {
                        return Self::fault(
                            String::from_str("Can't jump. Non boolean value found on stack"),
                            details,
                        );
                    },
                    Err(e) => {
                        return Self::fault(e.message(), details);
                    },
                };
                if condition {
                    Ok(Effect::Continue)
                } else {
                    Self::jump(reader, distance, details)
                }
            },
            _ => {
                let distance = match Self::read_operands_as_usize(instruction) {
                    Ok(distance) => distance,
                    Err(message) => {
                        return Self::fault(message, details);
                    },
                };
                match reader.dec_ip(distance) {
                    Ok(()) => Ok(Effect::Continue),
                    Err(_) => Self::fault(
                        String::from_str("Loop before the start of the code"),
                        details,
                    ),
                }
            },
        }
    }

    /// Executes one instruction that `reader` has just read at `offset`,
    /// from source line `src_line_number`.  `arith` computes the result of
    /// an arithmetic operation on two numbers.
    ///
    /// The instruction acts on the stack, the globals and the instruction
    /// pointer of `reader` as [`outcome`] says.  A fault leaves them as they
    /// were; its error carries the instruction, `offset` and
    /// `src_line_number`.
    pub fn execute<'a, F: Fn(ArithOp, Number, Number) -> Number>(
        &mut self,
        reader: &mut InstructionReader<'a>,
        instruction: &Instruction,
        offset: usize,
        src_line_number: i32,
        arith: &F,
    ) -> (r: Result<Effect, VmError>)
        requires
            old(reader).wf(),
            forall|o: ArithOp, a: Number, b: Number| call_requires(*arith, (o, a, b)),
        ensures
            final(reader).wf(),
            final(reader).chunk() == old(reader).chunk(),
            final(self).tracing() == old(self).tracing(),
            follows(
                outcome(
                    *instruction,
                    old(self).state(old(reader).ip()),
                    views(old(reader).chunk().constants()),
                    old(reader).chunk().code().len() as int,
                ),
                old(self).state(old(reader).ip()),
                final(self).state(final(reader).ip()),
                r,
                *arith,
                (*instruction, offset, src_line_number),
            ),
    {
        match instruction.op_code {
            OpCode::Constant | OpCode::Return | OpCode::Nil | OpCode::True | OpCode::False => {
                self.execute_load(reader, instruction, offset, src_line_number, arith)
            },
            OpCode::Negate | OpCode::Not | OpCode::Print | OpCode::Pop => {
                self.execute_unary(reader, instruction, offset, src_line_number, arith)
            },
            OpCode::Add | OpCode::Subtract | OpCode::Multiply | OpCode::Divide => {
                self.execute_arithmetic(reader, instruction, offset, src_line_number, arith)
            },
            OpCode::Equal | OpCode::Greater | OpCode::Less => {
                self.execute_comparison(reader, instruction, offset, src_line_number, arith)
            },
            OpCode::DefineGlobal | OpCode::GetGlobal | OpCode::SetGlobal => {
                self.execute_global(reader, instruction, offset, src_line_number, arith)
            },
            OpCode::GetLocal | OpCode::SetLocal => {
                self.execute_local(reader, instruction, offset, src_line_number, arith)
            },
            OpCode::Jump | OpCode::JumpIfFalse | OpCode::Loop => {
                self.execute_jump(reader, instruction, offset, src_line_number, arith)
            },
        }
    }

    /// Reads the next instruction and executes it.  At the end of the code
    /// the program ends, and nothing changes.  Where the instruction cannot
    /// be read the error says so and carries no instruction; the stack and
    /// the globals are then as they were.  An instruction that fails leaves
    /// the stack and the globals as they were, and the instruction pointer
    /// behind it.
    pub fn step<'a, F: Fn(ArithOp, Number, Number) -> Number>(
        &mut self,
        reader: &mut InstructionReader<'a>,
        arith: &F,
    ) -> (r: Result<Effect, VmError>)
        requires
            old(reader).wf(),
            forall|o: ArithOp, a: Number, b: Number| call_requires(*arith, (o, a, b)),
        ensures
            final(reader).wf(),
            final(reader).chunk() == old(reader).chunk(),
            final(self).tracing() == old(self).tracing(),
            stepped(
                old(reader).chunk().code(),
                old(reader).chunk().lines(),
                views(old(reader).chunk().constants()),
                old(self).state(old(reader).ip()),
                final(self).state(final(reader).ip()),
                r,
                *arith,
            ),
    {
        match reader.read_next() {
            Ok(Some((instruction, offset, src_line_number))) => self.execute(
                reader,
                &instruction,
                offset,
                src_line_number,
                arith,
            ),
            Ok(None) => Ok(Effect::Halt),
            Err(_) => Err(VmError::from_msg(String::from_str("Failed to read code byte"))),
        }
    }
}

/// Whether the result `r` of [`Vm::step`] and the state `post` that it left
/// are what the code asks for in state `pre`.
pub open spec fn stepped<F: Fn(ArithOp, Number, Number) -> Number>(
    code: Seq<u8>,
    lines: Seq<i32>,
    constants: Seq<ValueView>,
    pre: VmState,
    post: VmState,
    r: Result<Effect, VmError>,
    arith: F,
) -> bool {
    let read = read_result(code, lines, pre.ip);
    match read.0 {
        Ok(Some(fetched)) => follows(
            outcome(fetched.0, pre.at(read.1), constants, code.len() as int),
            pre.at(read.1),
            post,
            r,
            arith,
            fetched,
        ),
        Ok(None) => r matches Ok(Effect::Halt) && post == pre,
        Err(_) => {
            &&& r is Err
            &&& r->Err_0.msg@ == "Failed to read code byte"@
            &&& r->Err_0.details is None
            &&& post == pre.at(read.1)
        },
    }
}

/// The stack that an outcome leaves, where it leaves one.  For a
/// computation it is the stack below the result.
pub open spec fn stack_after(o: Outcome) -> Option<Seq<ValueView>> {
    match o {
        Outcome::Continue(s) => Some(s.stack),
        Outcome::Compute { rest, .. } => Some(rest.stack),
        Outcome::Print(_, s) => Some(s.stack),
        _ => None,
    }
}

/// How many values an instruction takes off the top of the stack before it
/// pushes anything.
pub open spec fn taken(op_code: OpCode) -> nat {
    match op_code {
        OpCode::Negate | OpCode::Not | OpCode::Print | OpCode::Pop | OpCode::DefineGlobal => 1,
        OpCode::Add
        | OpCode::Subtract
        | OpCode::Multiply
        | OpCode::Divide
        | OpCode::Equal
        | OpCode::Greater
        | OpCode::Less => 2,
        _ => 0,
    }
}

/// Whether the first operand of `ins` is the stack slot `slot`.
pub open spec fn names_slot(ins: Instruction, slot: int) -> bool {
    ins.operand1 matches Some(operand) && operand == slot
}

/// An assignment to a local or a global leaves the stack as high as it was,
/// with the same value on top; the definition of a global takes the top
/// value off and leaves the rest.
pub proof fn lemma_assignment_stack_height(
    ins: Instruction,
    pre: VmState,
    constants: Seq<ValueView>,
    code_len: int,
)
    ensures
        ins.op_code == OpCode::SetLocal || ins.op_code == OpCode::SetGlobal ==> match outcome(
            ins,
            pre,
            constants,
            code_len,
        ) {
            Outcome::Continue(post) => {
                &&& post.stack.len() == pre.stack.len()
                &&& post.stack.len() > 0
                &&& post.stack.last() == pre.stack.last()
            },
            Outcome::Fault(_) => true,
            _ => false,
        },
        ins.op_code == OpCode::DefineGlobal ==> match outcome(ins, pre, constants, code_len) {
            Outcome::Continue(post) => {
                &&& post.stack.len() == pre.stack.len() - 1
                &&& post.stack == pre.stack.drop_last()
            },
            Outcome::Fault(_) => true,
            _ => false,
        },
{
    if ins.op_code == OpCode::DefineGlobal {
        assert(pre.drop(1).stack =~= pre.stack.drop_last());
    }
}

/// A stack slot below the values that an instruction takes keeps its value,
/// unless the instruction is the `SetLocal` of that very slot: then the slot
/// holds the value that was on top.  A `GetLocal` pushes the slot's value.
pub proof fn lemma_slot_holds_last_assignment(
    ins: Instruction,
    pre: VmState,
    constants: Seq<ValueView>,
    code_len: int,
    slot: int,
)
    requires
        0 <= slot < pre.stack.len() - taken(ins.op_code),
    ensures
        match stack_after(outcome(ins, pre, constants, code_len)) {
            Some(stack) => {
                &&& slot < stack.len()
                &&& stack[slot] == if ins.op_code == OpCode::SetLocal && names_slot(ins, slot) {
                    pre.stack.last()
                } else {
                    pre.stack[slot]
                }
                &&& ins.op_code == OpCode::GetLocal && names_slot(ins, slot) ==> stack.last()
                    == pre.stack[slot]
            },
            None => true,
        },
{
}

/// Whether the result `r` of [`Vm::execute`] and the state `post` that it
/// left are what the outcome `o` of the instruction in state `pre` asks for.
/// A fault leaves the state as it was.
pub open spec fn follows<F: Fn(ArithOp, Number, Number) -> Number>(
    o: Outcome,
    pre: VmState,
    post: VmState,
    r: Result<Effect, VmError>,
    arith: F,
    details: (Instruction, usize, i32),
) -> bool {
    match o {
        Outcome::Continue(s) => r matches Ok(Effect::Continue) && post == s,
        Outcome::Compute { op, lhs, rhs, rest } => {
            &&& r matches Ok(Effect::Continue)
            &&& exists|n: Number|
                {
                    &&& #[trigger] call_ensures(arith, (op, lhs, rhs), n)
                    &&& post == rest.push(ValueView::Number(n))
                }
        },
        Outcome::Print(v, s) => r matches Ok(Effect::Print(value)) && value@ == v && post == s,
        Outcome::Halt => r matches Ok(Effect::Halt) && post == pre,
        Outcome::Fault(message) => {
            &&& r is Err
            &&& r->Err_0.msg@ == message
            &&& r->Err_0.details == Some(details)
            &&& post == pre
        },
    }
}

/// A jump that lands well does not leave the code: behind it the
/// instruction pointer is at the start of an instruction or at the end of
/// the code.  Only a `JumpIfFalse` can fail, for want of a boolean on the
/// stack.
pub proof fn lemma_linked_jump_stays_in_code(
    program: Seq<Instruction>,
    index: int,
    pre: VmState,
    constants: Seq<ValueView>,
)
    requires
        all_wf(program),
        0 <= index < program.len(),
        lands(program, index),
        program[index].op_code.arity() == 2,
        pre.ip == offset_of(program, index) + size(program[index]),
    ensures
        match outcome(program[index], pre, constants, encode(program).len() as int) {
            Outcome::Continue(post) => {
                &&& is_boundary(program, post.ip)
                &&& 0 <= post.ip <= encode(program).len()
                &&& post.stack == pre.stack
                &&& post.globals == pre.globals
            },
            Outcome::Fault(_) => program[index].op_code == OpCode::JumpIfFalse,
            _ => false,
        },
{
    let ins = program[index];
    lemma_encode_len(program);
    assert(ins.wf());
    assert(offset_of(program, index + 1) == pre.ip);
    let target = if ins.op_code == OpCode::Loop {
        pre.ip - ins.distance()
    } else {
        pre.ip + ins.distance()
    };
    assert(is_boundary(program, target));
    let j = choose|j: int| 0 <= j <= program.len() && #[trigger] offset_of(program, j) == target;
    lemma_offset_grows(program, 0, j);
    lemma_offset_grows(program, j, program.len() as int);
    lemma_offset_grows(program, 0, index + 1);
    lemma_offset_grows(program, index + 1, program.len() as int);
    assert(jump_distance(ins) == Ok::<int, Seq<char>>(ins.distance()));
    assert(0 <= target <= encode(program).len());
    assert(is_boundary(program, pre.ip));
    if ins.op_code == OpCode::Jump {
        assert(outcome(ins, pre, constants, encode(program).len() as int) == Outcome::Continue(
            pre.at(target),
        ));
    } else if ins.op_code == OpCode::Loop {
        assert(outcome(ins, pre, constants, encode(program).len() as int) == Outcome::Continue(
            pre.at(target),
        ));
    } else {
        assert(ins.op_code == OpCode::JumpIfFalse);
    }
}

/// An instruction that names a fitting constant finds it: a `Constant`
/// pushes it, and an instruction on a global does not fail for its name.
pub proof fn lemma_linked_constant_is_found(
    program: Seq<Instruction>,
    index: int,
    pre: VmState,
    constants: Seq<Value>,
    code_len: int,
)
    requires
        all_wf(program),
        0 <= index < program.len(),
        names_constant(program, constants, index),
    ensures
        program[index].op_code == OpCode::Constant ==> outcome(
            program[index],
            pre,
            views(constants),
            code_len,
        ) == Outcome::Continue(pre.push(constants[program[index].operand1->0 as int]@)),
        program[index].op_code == OpCode::DefineGlobal || program[index].op_code
            == OpCode::GetGlobal || program[index].op_code == OpCode::SetGlobal ==> global_name(
            program[index],
            views(constants),
        ) is Ok,
{
    assert(program[index].wf());
}

} // verus!
