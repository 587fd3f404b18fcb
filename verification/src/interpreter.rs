//! The error of an interpreter run: what went wrong, and in which phase.

use vstd::prelude::*;
use vstd::string::*;

verus! {

/// The phase in which an error arose.
#[derive(Clone, Copy, Debug, PartialEq, Eq, Structural)]
pub enum InterpreterErrorType {
    CompileError,
    RuntimeError,
}

impl InterpreterErrorType {
    /// The name of the phase.
    pub open spec fn spec_name(self) -> Seq<char> {
        match self {
            InterpreterErrorType::CompileError => "CompileError"@,
            InterpreterErrorType::RuntimeError => "RuntimeError"@,
        }
    }

    pub fn name(self) -> (text: &'static str)
        ensures
            text@ == self.spec_name(),
    {
        match self {
            InterpreterErrorType::CompileError => "CompileError",
            InterpreterErrorType::RuntimeError => "RuntimeError",
        }
    }
}

/// An error with the phase in which it arose.
#[derive(Debug)]
pub struct InterpreterError {
    msg: String,
    error_type: InterpreterErrorType,
}

impl InterpreterError {
    /// The message of the error.
    pub closed spec fn msg(&self) -> Seq<char> {
        self.msg@
    }

    /// The phase in which the error arose.
    pub closed spec fn error_type(&self) -> InterpreterErrorType {
        self.error_type
    }

    /// The diagnostic: the name of the phase, a colon, the message.
    pub open spec fn spec_text(&self) -> Seq<char> {
        self.error_type().spec_name() + ": "@ + self.msg()
    }

    pub fn new(msg: String, error_type: InterpreterErrorType) -> (e: Self)
        ensures
            e.msg() == msg@,
            e.error_type() == error_type,
    {
        Self { msg, error_type }
    }

    pub fn to_text(&self) -> (text: String)
        ensures
            text@ == self.spec_text(),
    {
        String::from_str(self.error_type.name()).concat(": ").concat(self.msg.as_str())
    }
}

} // verus!
