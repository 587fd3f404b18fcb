//! A compiled unit: code bytes, one source line per byte, and a constant pool.

use vstd::prelude::*;
use vstd::string::*;
use crate::text::{decimal, decimal_text};
use crate::value::Value;

verus! {

/// The most constants a chunk can hold: an index must fit in one byte.
pub const MAX_CONSTANTS: usize = 256;

/// Why an access to a chunk failed.
#[derive(Clone, Copy, Debug, PartialEq, Eq, Structural)]
pub enum ChunkError {
    /// A read at an offset at or behind the end of the code.
    OffsetOutOfRange(usize),
    /// A write at a location at or behind the end of the code.
    Overflow,
    /// No constant has this index.
    IndexOutOfRange(usize),
    /// The constant pool is full.
    TooManyConstants,
}

impl ChunkError {
    pub open spec fn spec_message(self) -> Seq<char> {
        match self {
            ChunkError::OffsetOutOfRange(offset) => "Offset "@ + decimal(offset as nat)
                + " is out range"@,
            ChunkError::Overflow => "Chunk overflow"@,
            ChunkError::IndexOutOfRange(index) => "Index "@ + decimal(index as nat)
                + " is out range"@,
            ChunkError::TooManyConstants => "Too many constants in chunk"@,
        }
    }

    pub fn message(&self) -> (text: String)
        ensures
            text@ == self.spec_message(),
    {
        match self {
            ChunkError::OffsetOutOfRange(offset) => String::from_str("Offset ").concat(
                decimal_text(*offset as u64).as_str(),
            ).concat(" is out range"),
            ChunkError::Overflow => String::from_str("Chunk overflow"),
            ChunkError::IndexOutOfRange(index) => String::from_str("Index ").concat(
                decimal_text(*index as u64).as_str(),
            ).concat(" is out range"),
            ChunkError::TooManyConstants => String::from_str("Too many constants in chunk"),
        }
    }
}

/// Code bytes, the source line of each byte, and the constants that the
/// code refers to by index.
#[derive(Debug)]
pub struct Chunk {
    code: Vec<u8>,
    src_line_numbers: Vec<i32>,
    constants: Vec<Value>,
}

impl Chunk {
    /// The code bytes.
    pub closed spec fn code(&self) -> Seq<u8> {
        self.code@
    }

    /// The source line of each code byte.
    pub closed spec fn lines(&self) -> Seq<i32> {
        self.src_line_numbers@
    }

    /// The constant pool.
    pub closed spec fn constants(&self) -> Seq<Value> {
        self.constants@
    }

    /// Every code byte has its source line, and every constant index fits in
    /// a byte.
    pub open spec fn wf(&self) -> bool {
        &&& self.lines().len() == self.code().len()
        &&& self.constants().len() <= MAX_CONSTANTS
    }

    pub fn new() -> (chunk: Self)
        ensures
            chunk.wf(),
            chunk.code() == Seq::<u8>::empty(),
            chunk.lines() == Seq::<i32>::empty(),
            chunk.constants() == Seq::<Value>::empty(),
    {
        Self { code: Vec::new(), src_line_numbers: Vec::new(), constants: Vec::new() }
    }

    /// The code byte at `offset`.
    pub fn read(&self, offset: usize) -> (r: Result<u8, ChunkError>)
        ensures
            offset < self.code().len() ==> r == Ok::<u8, ChunkError>(self.code()[offset as int]),
            offset >= self.code().len() ==> r == Err::<u8, ChunkError>(
                ChunkError::OffsetOutOfRange(offset),
            ),
    {
        if offset >= self.code.len() {
            return Err(ChunkError::OffsetOutOfRange(offset));
        }
        Ok(self.code[offset])
    }

    /// The source line of the code byte at `offset`.
    pub fn get_src_line_number(&self, offset: usize) -> (r: Result<i32, ChunkError>)
        requires
            self.wf(),
        ensures
            offset < self.code().len() ==> r == Ok::<i32, ChunkError>(self.lines()[offset as int]),
            offset >= self.code().len() ==> r == Err::<i32, ChunkError>(
                ChunkError::OffsetOutOfRange(offset),
            ),
    {
        if offset >= self.code.len() {
            return Err(ChunkError::OffsetOutOfRange(offset));
        }
        Ok(self.src_line_numbers[offset])
    }

    /// Appends a code byte with its source line and returns its offset.
    pub fn write(&mut self, code_byte: u8, src_line_number: i32) -> (offset: usize)
        requires
            old(self).wf(),
        ensures
            final(self).wf(),
            offset == old(self).code().len(),
            final(self).code() == old(self).code().push(code_byte),
            final(self).lines() == old(self).lines().push(src_line_number),
            final(self).constants() == old(self).constants(),
    {
        self.code.push(code_byte);
        self.src_line_numbers.push(src_line_number);
        self.code.len() - 1
    }

    /// Overwrites the code byte at `loc`; its source line stays.
    pub fn set(&mut self, loc: usize, code_byte: u8) -> (r: Result<(), ChunkError>)
        requires
            old(self).wf(),
        ensures
            final(self).wf(),
            final(self).lines() == old(self).lines(),
            final(self).constants() == old(self).constants(),
            loc < old(self).code().len() ==> r == Ok::<(), ChunkError>(()) && final(self).code()
                == old(self).code().update(loc as int, code_byte),
            loc >= old(self).code().len() ==> r == Err::<(), ChunkError>(ChunkError::Overflow)
                && final(self).code() == old(self).code(),
    {
        if loc >= self.code.len() {
            return Err(ChunkError::Overflow);
        }
        self.code.set(loc, code_byte);
        Ok(())
    }

    /// Appends a constant and returns its index, unless the pool is full.
    pub fn add_constant(&mut self, constant: Value) -> (r: Result<u8, ChunkError>)
        requires
            old(self).wf(),
        ensures
            final(self).wf(),
            final(self).code() == old(self).code(),
            final(self).lines() == old(self).lines(),
            old(self).constants().len() < MAX_CONSTANTS ==> r == Ok::<u8, ChunkError>(
                old(self).constants().len() as u8,
            ) && final(self).constants() == old(self).constants().push(constant),
            old(self).constants().len() >= MAX_CONSTANTS ==> r == Err::<u8, ChunkError>(
                ChunkError::TooManyConstants,
            ) && final(self).constants() == old(self).constants(),
    {
        if self.constants.len() >= MAX_CONSTANTS {
            return Err(ChunkError::TooManyConstants);
        }
        self.constants.push(constant);
        Ok((self.constants.len() - 1) as u8)
    }

    /// A copy of the constant at `index`.
    pub fn get_constant(&self, index: usize) -> (r: Result<Value, ChunkError>)
        ensures
            index < self.constants().len() ==> r == Ok::<Value, ChunkError>(
                self.constants()[index as int],
            ),
            index >= self.constants().len() ==> r == Err::<Value, ChunkError>(
                ChunkError::IndexOutOfRange(index),
            ),
    {
        if index >= self.constants.len() {
            return Err(ChunkError::IndexOutOfRange(index));
        }
        Ok(self.constants[index].clone())
    }

    /// The number of code bytes.
    pub fn len(&self) -> (n: usize)
        ensures
            n == self.code().len(),
    {
        self.code.len()
    }

    /// The number of constants.
    pub fn constants_len(&self) -> (n: usize)
        ensures
            n == self.constants().len(),
    {
        self.constants.len()
    }
}

} // verus!
