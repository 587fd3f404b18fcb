//! Operator precedence and the table of parse rules.

use vstd::prelude::*;
use crate::scanner::TokenType;

verus! {

/// How tightly an operator binds, from loosest to tightest.
#[derive(Clone, Copy, Debug, PartialEq, Eq, Structural)]
pub enum Precedence {
    /// Below every operator.
    Lowest,
    /// `=`
    Assignment,
    /// `or`
    Or,
    /// `and`
    And,
    /// `==` `!=`
    Equality,
    /// `<` `>` `<=` `>=`
    Comparison,
    /// `+` `-`
    Term,
    /// `*` `/`
    Factor,
    /// `!` `-`
    Unary,
    /// `.` `()`
    Call,
    Primary,
}

impl Precedence {
    /// The position of the precedence in the order, from 0 for `Lowest`.
    pub open spec fn rank(self) -> int {
        match self {
            Precedence::Lowest => 0,
            Precedence::Assignment => 1,
            Precedence::Or => 2,
            Precedence::And => 3,
            Precedence::Equality => 4,
            Precedence::Comparison => 5,
            Precedence::Term => 6,
            Precedence::Factor => 7,
            Precedence::Unary => 8,
            Precedence::Call => 9,
            Precedence::Primary => 10,
        }
    }

    fn rank_of(&self) -> (r: u8)
        ensures
            r == self.rank(),
    {
        match self {
            Precedence::Lowest => 0,
            Precedence::Assignment => 1,
            Precedence::Or => 2,
            Precedence::And => 3,
            Precedence::Equality => 4,
            Precedence::Comparison => 5,
            Precedence::Term => 6,
            Precedence::Factor => 7,
            Precedence::Unary => 8,
            Precedence::Call => 9,
            Precedence::Primary => 10,
        }
    }

    /// The next tighter precedence.  `Primary` has none.
    pub fn higher(&self) -> (r: Precedence)
        requires
            *self != Precedence::Primary,
        ensures
            r.rank() == self.rank() + 1,
    {
        match self {
            Precedence::Lowest => Precedence::Assignment,
            Precedence::Assignment => Precedence::Or,
            Precedence::Or => Precedence::And,
            Precedence::And => Precedence::Equality,
            Precedence::Equality => Precedence::Comparison,
            Precedence::Comparison => Precedence::Term,
            Precedence::Term => Precedence::Factor,
            Precedence::Factor => Precedence::Unary,
            Precedence::Unary => Precedence::Call,
            _ => Precedence::Primary,
        }
    }

    pub fn is_greater_than(&self, other: &Precedence) -> (r: bool)
        ensures
            r == (self.rank() > other.rank()),
    {
        self.rank_of() > other.rank_of()
    }

    pub fn is_greater_than_or_eq(&self, other: &Precedence) -> (r: bool)
        ensures
            r == (self.rank() >= other.rank()),
    {
        self.rank_of() >= other.rank_of()
    }
}

/// Two precedences with the same rank are the same.
pub proof fn lemma_rank_is_injective(a: Precedence, b: Precedence)
    requires
        a.rank() == b.rank(),
    ensures
        a == b,
{
}

/// What the parser does for a token at the start or in the middle of an
/// expression.
#[derive(Clone, Copy, Debug, PartialEq, Eq, Structural)]
pub enum ParseFn {
    Grouping,
    Unary,
    Binary,
    Variable,
    String,
    Number,
    Literal,
    And,
    Or,
}

/// The rule of a token kind: what to do when an expression starts with the
/// token, what to do when the token follows an operand, and how tightly it
/// binds there.
#[derive(Clone, Copy, Debug, PartialEq, Eq, Structural)]
pub struct ParseRule {
    pub prefix: Option<ParseFn>,
    pub infix: Option<ParseFn>,
    pub precedence: Precedence,
}

impl ParseRule {
    pub fn new(prefix: Option<ParseFn>, infix: Option<ParseFn>, precedence: Precedence) -> (r:
        Self)
        ensures
            r == (ParseRule { prefix, infix, precedence }),
    {
        Self { prefix, infix, precedence }
    }
}

/// The rule of a token kind without a role in expressions.
pub open spec fn no_rule() -> ParseRule {
    ParseRule { prefix: None, infix: None, precedence: Precedence::Lowest }
}

/// The rule of each token kind.
pub open spec fn rule_for(token_type: TokenType) -> ParseRule {
    match token_type {
        TokenType::LeftParen => ParseRule {
            prefix: Some(ParseFn::Grouping),
            infix: None,
            precedence: Precedence::Lowest,
        },
        TokenType::Minus => ParseRule {
            prefix: Some(ParseFn::Unary),
            infix: Some(ParseFn::Binary),
            precedence: Precedence::Term,
        },
        TokenType::Plus => ParseRule {
            prefix: None,
            infix: Some(ParseFn::Binary),
            precedence: Precedence::Term,
        },
        TokenType::Slash | TokenType::Star => ParseRule {
            prefix: None,
            infix: Some(ParseFn::Binary),
            precedence: Precedence::Factor,
        },
        TokenType::Bang => ParseRule {
            prefix: Some(ParseFn::Unary),
            infix: None,
            precedence: Precedence::Lowest,
        },
        TokenType::BangEqual | TokenType::EqualEqual => ParseRule {
            prefix: None,
            infix: Some(ParseFn::Binary),
            precedence: Precedence::Equality,
        },
        TokenType::Greater
        | TokenType::GreaterEqual
        | TokenType::Less
        | TokenType::LessEqual => ParseRule {
            prefix: None,
            infix: Some(ParseFn::Binary),
            precedence: Precedence::Comparison,
        },
        TokenType::Identifier => ParseRule {
            prefix: Some(ParseFn::Variable),
            infix: None,
            precedence: Precedence::Lowest,
        },
        TokenType::String => ParseRule {
            prefix: Some(ParseFn::String),
            infix: None,
            precedence: Precedence::Lowest,
        },
        TokenType::Number => ParseRule {
            prefix: Some(ParseFn::Number),
            infix: None,
            precedence: Precedence::Lowest,
        },
        TokenType::And => ParseRule {
            prefix: None,
            infix: Some(ParseFn::And),
            precedence: Precedence::And,
        },
        TokenType::Or => ParseRule {
            prefix: None,
            infix: Some(ParseFn::Or),
            precedence: Precedence::Or,
        },
        TokenType::False | TokenType::Nil | TokenType::True => ParseRule {
            prefix: Some(ParseFn::Literal),
            infix: None,
            precedence: Precedence::Lowest,
        },
        _ => no_rule(),
    }
}

/// The number of token kinds.
pub const TOKEN_KINDS: usize = 39;

/// The place of a token kind in the table.
pub open spec fn spec_ordinal(token_type: TokenType) -> int {
    match token_type {
        TokenType::LeftParen => 0,
        TokenType::RightParen => 1,
        TokenType::LeftBrace => 2,
        TokenType::RightBrace => 3,
        TokenType::Comma => 4,
        TokenType::Dot => 5,
        TokenType::Minus => 6,
        TokenType::Plus => 7,
        TokenType::Semicolon => 8,
        TokenType::Slash => 9,
        TokenType::Star => 10,
        TokenType::Bang => 11,
        TokenType::BangEqual => 12,
        TokenType::Equal => 13,
        TokenType::EqualEqual => 14,
        TokenType::Greater => 15,
        TokenType::GreaterEqual => 16,
        TokenType::Less => 17,
        TokenType::LessEqual => 18,
        TokenType::Identifier => 19,
        TokenType::String => 20,
        TokenType::Number => 21,
        TokenType::And => 22,
        TokenType::Class => 23,
        TokenType::Else => 24,
        TokenType::False => 25,
        TokenType::Fun => 26,
        TokenType::For => 27,
        TokenType::If => 28,
        TokenType::Nil => 29,
        TokenType::Or => 30,
        TokenType::Print => 31,
        TokenType::Return => 32,
        TokenType::Super => 33,
        TokenType::This => 34,
        TokenType::True => 35,
        TokenType::Var => 36,
        TokenType::While => 37,
        TokenType::Eof => 38,
    }
}

fn ordinal(token_type: &TokenType) -> (r: usize)
    ensures
        r == spec_ordinal(*token_type),
        r < TOKEN_KINDS,
{
    match token_type {
        TokenType::LeftParen => 0,
        TokenType::RightParen => 1,
        TokenType::LeftBrace => 2,
        TokenType::RightBrace => 3,
        TokenType::Comma => 4,
        TokenType::Dot => 5,
        TokenType::Minus => 6,
        TokenType::Plus => 7,
        TokenType::Semicolon => 8,
        TokenType::Slash => 9,
        TokenType::Star => 10,
        TokenType::Bang => 11,
        TokenType::BangEqual => 12,
        TokenType::Equal => 13,
        TokenType::EqualEqual => 14,
        TokenType::Greater => 15,
        TokenType::GreaterEqual => 16,
        TokenType::Less => 17,
        TokenType::LessEqual => 18,
        TokenType::Identifier => 19,
        TokenType::String => 20,
        TokenType::Number => 21,
        TokenType::And => 22,
        TokenType::Class => 23,
        TokenType::Else => 24,
        TokenType::False => 25,
        TokenType::Fun => 26,
        TokenType::For => 27,
        TokenType::If => 28,
        TokenType::Nil => 29,
        TokenType::Or => 30,
        TokenType::Print => 31,
        TokenType::Return => 32,
        TokenType::Super => 33,
        TokenType::This => 34,
        TokenType::True => 35,
        TokenType::Var => 36,
        TokenType::While => 37,
        TokenType::Eof => 38,
    }
}

/// The parse rules by token kind.
pub struct ParseRuleTable {
    lookup: Vec<Option<ParseRule>>,
}

impl ParseRuleTable {
    /// The rule of a token kind, where the table has one.
    pub closed spec fn rule(&self, token_type: TokenType) -> Option<ParseRule> {
        self.lookup@[spec_ordinal(token_type)]
    }

    /// The table has a place for every token kind.
    pub closed spec fn wf(&self) -> bool {
        self.lookup@.len() == TOKEN_KINDS
    }

    /// The table holds the rule of every token kind.
    pub open spec fn complete(&self) -> bool {
        &&& self.wf()
        &&& forall|token_type: TokenType| #[trigger]
            self.rule(token_type) == Some(rule_for(token_type))
    }

    pub fn new() -> (table: Self)
        ensures
            table.wf(),
            forall|token_type: TokenType| #[trigger] table.rule(token_type) is None,
    {
        let mut lookup: Vec<Option<ParseRule>> = Vec::new();
        let mut i: usize = 0;
        while i < TOKEN_KINDS
            invariant
                i <= TOKEN_KINDS,
                lookup@.len() == i,
                forall|j: int| 0 <= j < i ==> lookup@[j] is None,
            decreases TOKEN_KINDS - i,
        {
            lookup.push(None);
            i = i + 1;
        }
        Self { lookup }
    }

    /// Sets the rule of a token kind.
    pub fn add(
        &mut self,
        token_type: &TokenType,
        prefix: Option<ParseFn>,
        infix: Option<ParseFn>,
        precedence: Precedence,
    )
        requires
            old(self).wf(),
        ensures
            final(self).wf(),
            final(self).rule(*token_type) == Some(ParseRule { prefix, infix, precedence }),
            forall|other: TokenType|
                other != *token_type ==> final(self).rule(other) == old(self).rule(other),
    {
        self.lookup.set(ordinal(token_type), Some(ParseRule::new(prefix, infix, precedence)));
    }

    /// Gives a token kind the rule of a token without a role in expressions.
    pub fn add_null(&mut self, token_type: &TokenType)
        requires
            old(self).wf(),
        ensures
            final(self).wf(),
            final(self).rule(*token_type) == Some(no_rule()),
            forall|other: TokenType|
                other != *token_type ==> final(self).rule(other) == old(self).rule(other),
    {
        self.add(token_type, None, None, Precedence::Lowest)
    }

    pub fn get(&self, token_type: &TokenType) -> (r: Option<ParseRule>)
        requires
            self.wf(),
        ensures
            r == self.rule(*token_type),
    {
        self.lookup[ordinal(token_type)]
    }
}

} // verus!
