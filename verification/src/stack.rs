//! The evaluation stack.

use vstd::prelude::*;
use vstd::string::*;

verus! {

/// Why a stack access failed.
#[derive(Clone, Copy, Debug, PartialEq, Eq, Structural)]
pub enum StackError {
    /// Fewer items are on the stack than the access needs.
    Underflow,
    /// A position counted from the bottom lies at or above the top.
    Overflow,
}

impl StackError {
    pub open spec fn spec_message(self) -> Seq<char> {
        match self {
            StackError::Underflow => "Stack underflow"@,
            StackError::Overflow => "Stack overflow"@,
        }
    }

    pub fn message(&self) -> (text: String)
        ensures
            text@ == self.spec_message(),
    {
        match self {
            StackError::Underflow => String::from_str("Stack underflow"),
            StackError::Overflow => String::from_str("Stack overflow"),
        }
    }
}

/// A stack of items; its view lists them from the bottom up.
#[derive(Debug)]
pub struct Stack<T>(Vec<T>);

impl<T> View for Stack<T> {
    type V = Seq<T>;

    closed spec fn view(&self) -> Seq<T> {
        self.0@
    }
}

impl<T> Stack<T> {
    pub fn new() -> (stack: Self)
        ensures
            stack@ == Seq::<T>::empty(),
    {
        Self(Vec::new())
    }

    pub fn len(&self) -> (n: usize)
        ensures
            n == self@.len(),
    {
        self.0.len()
    }

    pub fn push(&mut self, item: T)
        ensures
            final(self)@ == old(self)@.push(item),
    {
        self.0.push(item)
    }

    /// Removes and returns the top item.
    pub fn pop(&mut self) -> (r: Result<T, StackError>)
        ensures
            old(self)@.len() == 0 ==> r == Err::<T, StackError>(StackError::Underflow) && final(self)@ == old(self)@,
            old(self)@.len() > 0 ==> r == Ok::<T, StackError>(old(self)@.last()) && final(self)@
                == old(self)@.drop_last(),
    {
        match self.0.pop() {
            Some(item) => Ok(item),
            None => Err(StackError::Underflow),
        }
    }

    /// The item `pos` places below the top; `pos` 0 is the top itself.
    pub fn peek(&self, pos: usize) -> (r: Result<&T, StackError>)
        ensures
            pos >= self@.len() ==> r == Err::<&T, StackError>(StackError::Underflow),
            pos < self@.len() ==> r == Ok::<&T, StackError>(&self@[self@.len() - 1 - pos]),
    {
        if pos >= self.0.len() {
            return Err(StackError::Underflow);
        }
        let index = self.0.len() - 1 - pos;
        Ok(&self.0[index])
    }

    /// The item `pos` places above the bottom; `pos` 0 is the bottom itself.
    pub fn peek_front(&self, pos: usize) -> (r: Result<&T, StackError>)
        ensures
            pos >= self@.len() ==> r == Err::<&T, StackError>(StackError::Overflow),
            pos < self@.len() ==> r == Ok::<&T, StackError>(&self@[pos as int]),
    {
        if pos >= self.0.len() {
            return Err(StackError::Overflow);
        }
        Ok(&self.0[pos])
    }

    /// Replaces the item `pos` places above the bottom.
    pub fn set_front(&mut self, pos: usize, value: T) -> (r: Result<(), StackError>)
        ensures
            pos >= old(self)@.len() ==> r == Err::<(), StackError>(StackError::Overflow) && final(self)@ == old(self)@,
            pos < old(self)@.len() ==> r == Ok::<(), StackError>(()) && final(self)@ == old(self)@.update(pos as int, value),
    {
        if pos >= self.0.len() {
            return Err(StackError::Overflow);
        }
        self.0.set(pos, value);
        Ok(())
    }
}

} // verus!
