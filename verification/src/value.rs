//! Runtime values: numbers, booleans, nil and strings.

use vstd::prelude::*;
use vstd::std_specs::iter::IteratorSpec;
use vstd::string::*;

verus! {

/// The sign bit of a binary64 bit pattern.
pub const SIGN_BIT: u64 = 0x8000_0000_0000_0000;

/// The bit pattern of positive infinity; every larger magnitude is a NaN.
pub const INFINITY_BITS: u64 = 0x7FF0_0000_0000_0000;

/// A number of the language: an IEEE-754 binary64 value, held as its bit
/// pattern.
///
/// Sign, equality and ordering are decided here on the bits.  Arithmetic
/// that rounds, and conversion from and to decimal text, are not: the
/// caller supplies them.
#[derive(Clone, Copy, Debug)]
pub struct Number {
    pub bits: u64,
}

/// The four rounding operations on numbers.
#[derive(Clone, Copy, Debug, PartialEq, Eq, Structural)]
pub enum ArithOp {
    Add,
    Subtract,
    Multiply,
    Divide,
}

impl Number {
    /// Whether the sign bit is set.
    pub open spec fn is_negative(self) -> bool {
        self.bits >= SIGN_BIT
    }

    /// The bit pattern without its sign bit.
    pub open spec fn magnitude(self) -> int {
        if self.bits >= SIGN_BIT {
            self.bits - SIGN_BIT
        } else {
            self.bits as int
        }
    }

    /// Whether the pattern encodes a NaN.
    pub open spec fn is_nan(self) -> bool {
        self.magnitude() > INFINITY_BITS
    }

    /// An integer that orders the non-NaN numbers as their values are
    /// ordered; both zeros have rank 0.
    pub open spec fn rank(self) -> int {
        if self.is_negative() {
            -self.magnitude()
        } else {
            self.magnitude()
        }
    }

    /// IEEE equality: NaN equals nothing, the two zeros are equal.
    pub open spec fn spec_equals(self, other: Number) -> bool {
        !self.is_nan() && !other.is_nan() && self.rank() == other.rank()
    }

    /// IEEE `<`: false whenever either side is a NaN.
    pub open spec fn spec_less(self, other: Number) -> bool {
        !self.is_nan() && !other.is_nan() && self.rank() < other.rank()
    }

    /// The number with the opposite sign bit.
    pub open spec fn spec_negated(self) -> Number {
        if self.bits >= SIGN_BIT {
            Number { bits: (self.bits - SIGN_BIT) as u64 }
        } else {
            Number { bits: (self.bits + SIGN_BIT) as u64 }
        }
    }

    pub fn from_bits(bits: u64) -> (n: Number)
        ensures
            n.bits == bits,
    {
        Number { bits }
    }

    pub fn to_bits(self) -> (bits: u64)
        ensures
            bits == self.bits,
    {
        self.bits
    }

    fn split(self) -> (r: (bool, u64))
        ensures
            r.0 == self.is_negative(),
            r.1 == self.magnitude(),
    {
        if self.bits >= SIGN_BIT {
            (true, self.bits - SIGN_BIT)
        } else {
            (false, self.bits)
        }
    }

    pub fn nan(self) -> (r: bool)
        ensures
            r == self.is_nan(),
    {
        self.split().1 > INFINITY_BITS
    }

    /// Flips the sign, as unary minus does; a NaN stays a NaN.
    pub fn negate(self) -> (r: Number)
        ensures
            r == self.spec_negated(),
            r.is_nan() == self.is_nan(),
            r.magnitude() == self.magnitude(),
            r.is_negative() != self.is_negative(),
    {
        if self.bits >= SIGN_BIT {
            Number { bits: self.bits - SIGN_BIT }
        } else {
            Number { bits: self.bits + SIGN_BIT }
        }
    }

    pub fn equals(self, other: Number) -> (r: bool)
        ensures
            r == self.spec_equals(other),
    {
        let (a_neg, a_mag) = self.split();
        let (b_neg, b_mag) = other.split();
        if a_mag > INFINITY_BITS || b_mag > INFINITY_BITS {
            false
        } else if a_neg == b_neg {
            a_mag == b_mag
        } else {
            a_mag == 0 && b_mag == 0
        }
    }

    pub fn less(self, other: Number) -> (r: bool)
        ensures
            r == self.spec_less(other),
    {
        let (a_neg, a_mag) = self.split();
        let (b_neg, b_mag) = other.split();
        if a_mag > INFINITY_BITS || b_mag > INFINITY_BITS {
            false
        } else if a_neg {
            if b_neg {
                a_mag > b_mag
            } else {
                a_mag != 0 || b_mag != 0
            }
        } else {
            if b_neg {
                false
            } else {
                a_mag < b_mag
            }
        }
    }
}

/// A value of the language.
#[derive(Debug)]
pub enum Value {
    Number(Number),
    Nil,
    Boolean(bool),
    String(String),
}

/// The mathematical content of a [`Value`]: a string is its characters.
pub enum ValueView {
    Number(Number),
    Nil,
    Boolean(bool),
    String(Seq<char>),
}

impl View for Value {
    type V = ValueView;

    open spec fn view(&self) -> ValueView {
        match self {
            Value::Number(n) => ValueView::Number(*n),
            Value::Nil => ValueView::Nil,
            Value::Boolean(b) => ValueView::Boolean(*b),
            Value::String(s) => ValueView::String(s@),
        }
    }
}

/// The views of a sequence of values, in order.
pub open spec fn views(values: Seq<Value>) -> Seq<ValueView> {
    values.map_values(|v: Value| v@)
}

impl ValueView {
    /// Equality of the language: values with different tags are never equal,
    /// numbers compare as IEEE numbers, the rest by content.
    pub open spec fn equals(self, other: ValueView) -> bool {
        match (self, other) {
            (ValueView::Number(a), ValueView::Number(b)) => a.spec_equals(b),
            (ValueView::Nil, ValueView::Nil) => true,
            (ValueView::Boolean(a), ValueView::Boolean(b)) => a == b,
            (ValueView::String(a), ValueView::String(b)) => a == b,
            _ => false,
        }
    }

    /// Whether the two values have an order: two numbers, or two strings.
    pub open spec fn ordered_with(self, other: ValueView) -> bool {
        match (self, other) {
            (ValueView::Number(_), ValueView::Number(_)) => true,
            (ValueView::String(_), ValueView::String(_)) => true,
            _ => false,
        }
    }

    /// Strict ordering: two numbers by value, two strings lexicographically
    /// by character.  No other two values have an order.
    pub open spec fn less(self, other: ValueView) -> bool {
        match (self, other) {
            (ValueView::Number(a), ValueView::Number(b)) => a.spec_less(b),
            (ValueView::String(a), ValueView::String(b)) => text_less(a, b),
            _ => false,
        }
    }
}

/// Lexicographic order on character sequences: `a` is below `b` when `a` is a
/// proper prefix of `b`, or at the first position where they differ `a` holds
/// the smaller character.
pub open spec fn text_less(a: Seq<char>, b: Seq<char>) -> bool
    decreases a.len(),
{
    if b.len() == 0 {
        false
    } else if a.len() == 0 {
        true
    } else if a[0] != b[0] {
        (a[0] as u32) < (b[0] as u32)
    } else {
        text_less(a.drop_first(), b.drop_first())
    }
}

/// Compares two strings in lexicographic order of their characters.
pub fn text_is_less(a: &str, b: &str) -> (r: bool)
    ensures
        r == text_less(a@, b@),
{
    broadcast use group_string_axioms;

    let mut left = a.chars();
    let mut right = b.chars();
    let ghost mut taken: int = 0;
    loop
        invariant
            left.obeys_prophetic_iter_laws(),
            right.obeys_prophetic_iter_laws(),
            0 <= taken <= a@.len(),
            left.remaining() == a@.skip(taken),
            text_less(a@, b@) == text_less(left.remaining(), right.remaining()),
        decreases a@.len() - taken,
    {
        let x = left.next();
        let y = right.next();
        proof {
            if x is Some {
                assert(a@.skip(taken).drop_first() =~= a@.skip(taken + 1));
                taken = taken + 1;
            }
        }
        match y {
            None => {
                return false;
            },
            Some(cy) => match x {
                None => {
                    return true;
                },
                Some(cx) => {
                    if cx != cy {
                        return (cx as u32) < (cy as u32);
                    }
                },
            },
        }
    }
}

impl Value {
    /// Equality of the language.
    pub fn equals(&self, other: &Value) -> (r: bool)
        ensures
            r == self@.equals(other@),
    {
        match (self, other) {
            (Value::Number(a), Value::Number(b)) => a.equals(*b),
            (Value::Nil, Value::Nil) => true,
            (Value::Boolean(a), Value::Boolean(b)) => *a == *b,
            (Value::String(a), Value::String(b)) => *a == *b,
            _ => false,
        }
    }

    /// Whether the two values have an order: two numbers, or two strings.
    pub fn ordered_with(&self, other: &Value) -> (r: bool)
        ensures
            r == self@.ordered_with(other@),
    {
        match (self, other) {
            (Value::Number(_), Value::Number(_)) => true,
            (Value::String(_), Value::String(_)) => true,
            _ => false,
        }
    }

    /// Strict ordering of the language: of two numbers, or of two strings.
    pub fn less(&self, other: &Value) -> (r: bool)
        ensures
            r == self@.less(other@),
    {
        match (self, other) {
            (Value::Number(a), Value::Number(b)) => a.less(*b),
            (Value::String(a), Value::String(b)) => text_is_less(a.as_str(), b.as_str()),
            _ => false,
        }
    }

    /// The text that printing shows for a value.  `number_text` renders a
    /// number; the other values are rendered here.
    pub fn to_text<F: Fn(Number) -> String>(&self, number_text: &F) -> (text: String)
        requires
            forall|n: Number| call_requires(*number_text, (n,)),
        ensures
            shows(self@, text@, *number_text),
    {
        match self {
            Value::Number(n) => number_text(*n),
            Value::Nil => String::from_str("nil"),
            Value::Boolean(b) => if *b {
                String::from_str("true")
            } else {
                String::from_str("false")
            },
            Value::String(s) => s.clone(),
        }
    }
}

/// What [`Value::to_text`] may return for a value: `nil`, `true`, `false`,
/// the string itself, or for a number any text that `number_text` gives.
pub open spec fn shows<F: Fn(Number) -> String>(
    value: ValueView,
    text: Seq<char>,
    number_text: F,
) -> bool {
    match value {
        ValueView::Number(n) => exists|s: String| call_ensures(number_text, (n,), s) && s@ == text,
        ValueView::Nil => text == "nil"@,
        ValueView::Boolean(b) => text == if b {
            "true"@
        } else {
            "false"@
        },
        ValueView::String(s) => text == s,
    }
}

impl Clone for Value {
    fn clone(&self) -> (r: Self)
        ensures
            r == *self,
    {
        match self {
            Value::Number(n) => Value::Number(*n),
            Value::Nil => Value::Nil,
            Value::Boolean(b) => Value::Boolean(*b),
            Value::String(s) => Value::String(s.clone()),
        }
    }
}

} // verus!
