//! The scanner: source text to tokens, one at a time.

use vstd::prelude::*;
use vstd::string::*;
use vstd::utf8::*;
use crate::text::{decimal, decimal_text};

verus! {

/// A failed scan: the source line where it ended and what was wrong.
#[derive(Debug)]
pub struct ScanError {
    pub line: usize,
    pub message: String,
}

impl ScanError {
    /// The diagnostic: the line in square brackets, a colon, the message.
    pub open spec fn spec_text(&self) -> Seq<char> {
        "["@ + decimal(self.line as nat) + "]: "@ + self.message@
    }

    pub fn to_text(&self) -> (text: String)
        ensures
            text@ == self.spec_text(),
    {
        String::from_str("[").concat(decimal_text(self.line as u64).as_str()).concat("]: ").concat(
            self.message.as_str(),
        )
    }
}

impl Clone for ScanError {
    fn clone(&self) -> (r: Self)
        ensures
            r == *self,
    {
        ScanError { line: self.line, message: self.message.clone() }
    }
}

/// The place of a token's text in the source: `len` bytes from byte `start`.
#[derive(Clone, Copy, Debug, PartialEq, Eq, Structural)]
pub struct Lexeme {
    pub start: usize,
    pub len: usize,
}

/// A token: its kind, the place of its text in the source, and the line
/// where its scan stopped.
#[derive(Clone, Copy, Debug, PartialEq, Eq, Structural)]
pub struct Token {
    pub token_type: TokenType,
    pub lexeme: Lexeme,
    pub line: usize,
}

/// The kinds of tokens.
#[derive(Clone, Copy, Debug, PartialEq, Eq, Structural, Hash)]
pub enum TokenType {
    LeftParen,
    RightParen,
    LeftBrace,
    RightBrace,
    Comma,
    Dot,
    Minus,
    Plus,
    Semicolon,
    Slash,
    Star,
    Bang,
    BangEqual,
    Equal,
    EqualEqual,
    Greater,
    GreaterEqual,
    Less,
    LessEqual,
    Identifier,
    String,
    Number,
    And,
    Class,
    Else,
    False,
    Fun,
    For,
    If,
    Nil,
    Or,
    Print,
    Return,
    Super,
    This,
    True,
    Var,
    While,
    Eof,
}

/// The byte at `index`, or 0 where the source has none.
pub open spec fn byte_at(bytes: Seq<u8>, index: int) -> u8 {
    if 0 <= index < bytes.len() {
        bytes[index]
    } else {
        0
    }
}

pub open spec fn is_digit(c: u8) -> bool {
    ('0' as u8) <= c <= ('9' as u8)
}

pub open spec fn is_alpha(c: u8) -> bool {
    ||| ('a' as u8) <= c <= ('z' as u8)
    ||| ('A' as u8) <= c <= ('Z' as u8)
    ||| c == ('_' as u8)
}

pub open spec fn is_alphanumeric(c: u8) -> bool {
    is_alpha(c) || is_digit(c)
}

/// Space, carriage return, tab or line feed.
pub open spec fn is_blank(c: u8) -> bool {
    c == (' ' as u8) || c == ('\r' as u8) || c == ('\t' as u8) || c == ('\n' as u8)
}

/// A kind of byte run that the scanner skips in one go.
#[derive(Clone, Copy, Debug, PartialEq, Eq, Structural)]
pub enum Run {
    /// Decimal digits.
    Digits,
    /// Letters, digits and underscores.
    Word,
    /// Anything but a line feed: the rest of a comment.
    Line,
    /// Anything but a double quote: the inside of a string.
    Text,
}

/// Whether byte `c` belongs to a run of kind `run`.
pub open spec fn in_run(run: Run, c: u8) -> bool {
    match run {
        Run::Digits => is_digit(c),
        Run::Word => is_alphanumeric(c),
        Run::Line => c != ('\n' as u8),
        Run::Text => c != ('"' as u8),
    }
}

/// Where the run of kind `run` that starts at `from` ends: the first offset
/// at or behind `from` whose byte is not in the run, or the end of the
/// source.
pub open spec fn run_end(bytes: Seq<u8>, from: int, run: Run) -> int
    decreases bytes.len() - from,
{
    if 0 <= from < bytes.len() && in_run(run, bytes[from]) {
        run_end(bytes, from + 1, run)
    } else {
        from
    }
}

/// The number of line feeds before offset `until`.
pub open spec fn newlines(bytes: Seq<u8>, until: int) -> nat
    decreases until,
{
    if until <= 0 {
        0
    } else if byte_at(bytes, until - 1) == ('\n' as u8) {
        newlines(bytes, until - 1) + 1
    } else {
        newlines(bytes, until - 1)
    }
}

/// The line of offset `pos`, counted from 1; it stops counting at the
/// largest `usize`.
pub open spec fn line_at(bytes: Seq<u8>, pos: int) -> usize {
    if 1 + newlines(bytes, pos) > usize::MAX {
        usize::MAX
    } else {
        (1 + newlines(bytes, pos)) as usize
    }
}

/// Where the next token starts when scanning resumes at `pos`: behind all
/// blanks and all comments, which run from `//` to the end of their line.
pub open spec fn skip_blank(bytes: Seq<u8>, pos: int) -> int
    decreases bytes.len() - pos,
{
    if 0 <= pos < bytes.len() {
        if is_blank(bytes[pos]) {
            skip_blank(bytes, pos + 1)
        } else if bytes[pos] == ('/' as u8) && byte_at(bytes, pos + 1) == ('/' as u8) {
            if pos < run_end(bytes, pos, Run::Line) <= bytes.len() {
                skip_blank(bytes, run_end(bytes, pos, Run::Line))
            } else {
                pos
            }
        } else {
            pos
        }
    } else {
        pos
    }
}

/// Where the number that starts at `start` ends: behind its digits and, if a
/// dot and a digit follow them, behind the digits of the fraction.
pub open spec fn number_end(bytes: Seq<u8>, start: int) -> int {
    let whole = run_end(bytes, start + 1, Run::Digits);
    if byte_at(bytes, whole) == ('.' as u8) && is_digit(byte_at(bytes, whole + 1)) {
        run_end(bytes, whole + 1, Run::Digits)
    } else {
        whole
    }
}

/// Whether `c` starts an operator that a following `=` extends.
pub open spec fn takes_equal(c: u8) -> bool {
    c == ('!' as u8) || c == ('=' as u8) || c == ('<' as u8) || c == ('>' as u8)
}

/// Where the scan of the token that starts at `start` stops.  A string
/// stops behind its closing quote, or at the end of the source when there
/// is none; a byte that starts no token is passed over alone.
pub open spec fn lexeme_end(bytes: Seq<u8>, start: int) -> int {
    let c = bytes[start];
    if is_digit(c) {
        number_end(bytes, start)
    } else if c == ('"' as u8) {
        let quote = run_end(bytes, start + 1, Run::Text);
        if quote < bytes.len() {
            quote + 1
        } else {
            quote
        }
    } else if is_alpha(c) {
        run_end(bytes, start + 1, Run::Word)
    } else if takes_equal(c) && byte_at(bytes, start + 1) == ('=' as u8) {
        start + 2
    } else {
        start + 1
    }
}

/// The bytes of a word of ASCII characters.
pub open spec fn ascii(word: Seq<char>) -> Seq<u8> {
    word.map_values(|c: char| c as u8)
}

/// The kind of the word `word`: that of the keyword it spells, else
/// `Identifier`.
pub open spec fn word_kind(word: Seq<u8>) -> TokenType {
    if word == ascii("and"@) {
        TokenType::And
    } else if word == ascii("class"@) {
        TokenType::Class
    } else if word == ascii("else"@) {
        TokenType::Else
    } else if word == ascii("false"@) {
        TokenType::False
    } else if word == ascii("for"@) {
        TokenType::For
    } else if word == ascii("fun"@) {
        TokenType::Fun
    } else if word == ascii("if"@) {
        TokenType::If
    } else if word == ascii("nil"@) {
        TokenType::Nil
    } else if word == ascii("or"@) {
        TokenType::Or
    } else if word == ascii("print"@) {
        TokenType::Print
    } else if word == ascii("return"@) {
        TokenType::Return
    } else if word == ascii("super"@) {
        TokenType::Super
    } else if word == ascii("this"@) {
        TokenType::This
    } else if word == ascii("true"@) {
        TokenType::True
    } else if word == ascii("var"@) {
        TokenType::Var
    } else if word == ascii("while"@) {
        TokenType::While
    } else {
        TokenType::Identifier
    }
}

/// The kind of the token that starts at `start`, or `None` where the scan
/// fails: on a string without its closing quote and on a byte that starts no
/// token.
pub open spec fn lexeme_kind(bytes: Seq<u8>, start: int) -> Option<TokenType> {
    let c = bytes[start];
    let followed = byte_at(bytes, start + 1) == ('=' as u8);
    if c == ('(' as u8) {
        Some(TokenType::LeftParen)
    } else if c == (')' as u8) {
        Some(TokenType::RightParen)
    } else if c == ('{' as u8) {
        Some(TokenType::LeftBrace)
    } else if c == ('}' as u8) {
        Some(TokenType::RightBrace)
    } else if c == (',' as u8) {
        Some(TokenType::Comma)
    } else if c == ('.' as u8) {
        Some(TokenType::Dot)
    } else if c == ('-' as u8) {
        Some(TokenType::Minus)
    } else if c == ('+' as u8) {
        Some(TokenType::Plus)
    } else if c == (';' as u8) {
        Some(TokenType::Semicolon)
    } else if c == ('*' as u8) {
        Some(TokenType::Star)
    } else if c == ('/' as u8) {
        Some(TokenType::Slash)
    } else if c == ('!' as u8) {
        Some(if followed { TokenType::BangEqual } else { TokenType::Bang })
    } else if c == ('=' as u8) {
        Some(if followed { TokenType::EqualEqual } else { TokenType::Equal })
    } else if c == ('<' as u8) {
        Some(if followed { TokenType::LessEqual } else { TokenType::Less })
    } else if c == ('>' as u8) {
        Some(if followed { TokenType::GreaterEqual } else { TokenType::Greater })
    } else if is_digit(c) {
        Some(TokenType::Number)
    } else if c == ('"' as u8) {
        if run_end(bytes, start + 1, Run::Text) < bytes.len() {
            Some(TokenType::String)
        } else {
            None
        }
    } else if is_alpha(c) {
        Some(word_kind(bytes.subrange(start, lexeme_end(bytes, start))))
    } else {
        None
    }
}

/// The message of the failed scan of the token that starts at `start`.
pub open spec fn scan_fault(bytes: Seq<u8>, start: int) -> Seq<char> {
    if bytes[start] == ('"' as u8) {
        "Unterminated string."@
    } else {
        "Unexpected character."@
    }
}

/// Whether the lexeme lies inside the source and cuts no character in two.
pub open spec fn lexeme_in(bytes: Seq<u8>, lexeme: Lexeme) -> bool {
    let end = lexeme.start + lexeme.len;
    &&& end <= bytes.len()
    &&& is_char_boundary(bytes, end)
    &&& is_char_boundary(bytes.subrange(0, end), lexeme.start as int)
}

/// Whether the lexeme of a token lies well in the source; for a string,
/// also the text between its two quotes.
pub open spec fn token_in(bytes: Seq<u8>, token: Token) -> bool {
    &&& lexeme_in(bytes, token.lexeme)
    &&& token.token_type == TokenType::String ==> {
        &&& token.lexeme.len >= 2
        &&& lexeme_in(
            bytes,
            Lexeme { start: (token.lexeme.start + 1) as usize, len: (token.lexeme.len - 2) as usize },
        )
    }
}

/// What a scan that resumes at offset `pos` returns and where it stops.
pub struct Scan {
    /// The token, or the message of the failure.
    pub token: Result<Token, Seq<char>>,
    /// The offset behind what was scanned.
    pub end: int,
}

/// The scan of source `bytes` from offset `pos`.  At the end of the source
/// the token is `Eof`, with an empty lexeme there.  The line of a token is
/// the line of the offset where its scan stopped.
pub open spec fn scan(bytes: Seq<u8>, pos: int) -> Scan {
    let start = skip_blank(bytes, pos);
    if start >= bytes.len() {
        Scan {
            token: Ok(
                Token {
                    token_type: TokenType::Eof,
                    lexeme: Lexeme { start: bytes.len() as usize, len: 0 },
                    line: line_at(bytes, start),
                },
            ),
            end: start,
        }
    } else {
        let end = lexeme_end(bytes, start);
        Scan {
            token: match lexeme_kind(bytes, start) {
                Some(token_type) => Ok(
                    Token {
                        token_type,
                        lexeme: Lexeme { start: start as usize, len: (end - start) as usize },
                        line: line_at(bytes, end),
                    },
                ),
                None => Err(scan_fault(bytes, start)),
            },
            end,
        }
    }
}

/// A run that starts inside the source ends inside it or at its end, holds
/// only bytes of its kind, and stops before a byte that is not of its kind.
pub proof fn lemma_run_end(bytes: Seq<u8>, from: int, run: Run)
    requires
        0 <= from <= bytes.len(),
    ensures
        from <= run_end(bytes, from, run) <= bytes.len(),
        forall|i: int| from <= i < run_end(bytes, from, run) ==> in_run(run, #[trigger] bytes[i]),
        run_end(bytes, from, run) < bytes.len() ==> !in_run(
            run,
            bytes[run_end(bytes, from, run)],
        ),
    decreases bytes.len() - from,
{
    if from < bytes.len() && in_run(run, bytes[from]) {
        lemma_run_end(bytes, from + 1, run);
    }
}

/// Skipping blanks and comments never moves back nor behind the end, and
/// stops at the end or at a byte that is no blank.
pub proof fn lemma_skip_blank(bytes: Seq<u8>, pos: int)
    requires
        0 <= pos <= bytes.len(),
    ensures
        pos <= skip_blank(bytes, pos) <= bytes.len(),
        skip_blank(bytes, pos) < bytes.len() ==> !is_blank(bytes[skip_blank(bytes, pos)]),
        skip_blank(bytes, skip_blank(bytes, pos)) == skip_blank(bytes, pos),
    decreases bytes.len() - pos,
{
    if pos < bytes.len() {
        if is_blank(bytes[pos]) {
            lemma_skip_blank(bytes, pos + 1);
        } else if bytes[pos] == ('/' as u8) && byte_at(bytes, pos + 1) == ('/' as u8) {
            lemma_run_end(bytes, pos, Run::Line);
            if pos < run_end(bytes, pos, Run::Line) {
                lemma_skip_blank(bytes, run_end(bytes, pos, Run::Line));
            }
        }
    }
}

/// A scan never moves back nor behind the end of the source.  It passes over
/// at least one byte, unless it returns `Eof`, which it does only at the end
/// of the source.
pub proof fn lemma_scan(bytes: Seq<u8>, pos: int)
    requires
        0 <= pos <= bytes.len(),
    ensures
        pos <= scan(bytes, pos).end <= bytes.len(),
        scan(bytes, pos).token matches Ok(token) ==> (token.token_type == TokenType::Eof
            ==> scan(bytes, pos).end == bytes.len()),
        !(scan(bytes, pos).token matches Ok(token) && token.token_type == TokenType::Eof)
            ==> pos < scan(bytes, pos).end,
{
    lemma_skip_blank(bytes, pos);
    let start = skip_blank(bytes, pos);
    if start < bytes.len() {
        lemma_run_end(bytes, start + 1, Run::Digits);
        lemma_run_end(bytes, start + 1, Run::Text);
        lemma_run_end(bytes, start + 1, Run::Word);
        let whole = run_end(bytes, start + 1, Run::Digits);
        if whole + 1 < bytes.len() {
            lemma_run_end(bytes, whole + 1, Run::Digits);
        }
    }
}

/// The offset behind an ASCII byte of valid UTF-8 starts a character, as does
/// the offset of the byte itself.
pub proof fn lemma_ascii_is_boundary(bytes: Seq<u8>, index: int)
    requires
        valid_utf8(bytes),
        0 <= index < bytes.len(),
        bytes[index] < 0x80,
    ensures
        is_char_boundary(bytes, index),
        is_char_boundary(bytes, index + 1),
    decreases bytes.len(),
{
    is_char_boundary_iff_not_is_continuation_byte(bytes, index);
    reveal_with_fuel(is_char_boundary, 2);
    reveal_with_fuel(valid_utf8, 2);
    if index == 0 {
        is_char_boundary_start_end_of_seq(pop_first_scalar(bytes));
    } else {
        let tail = pop_first_scalar(bytes);
        let width = length_of_first_scalar(bytes);
        assert(index >= width);
        lemma_ascii_is_boundary(tail, index - width);
    }
}

/// A lexeme that starts at an ASCII byte and ends behind one cuts no
/// character in two; nor does the empty lexeme at the end of the source.
pub proof fn lemma_lexeme_in(bytes: Seq<u8>, lexeme: Lexeme)
    requires
        valid_utf8(bytes),
        lexeme.start + lexeme.len <= bytes.len(),
        lexeme.len == 0 ==> lexeme.start == bytes.len(),
        lexeme.len > 0 ==> bytes[lexeme.start as int] < 0x80 && bytes[lexeme.start + lexeme.len
            - 1] < 0x80,
    ensures
        lexeme_in(bytes, lexeme),
{
    let end = lexeme.start + lexeme.len;
    if lexeme.len == 0 {
        is_char_boundary_start_end_of_seq(bytes);
        assert(bytes.subrange(0, end) =~= bytes);
    } else {
        lemma_ascii_is_boundary(bytes, end - 1);
        valid_utf8_split(bytes, end);
        let head = bytes.subrange(0, end);
        assert(head[lexeme.start as int] == bytes[lexeme.start as int]);
        is_char_boundary_iff_not_is_continuation_byte(head, lexeme.start as int);
    }
}

/// The text between two ASCII bytes cuts no character in two.
pub proof fn lemma_inner_lexeme_in(bytes: Seq<u8>, lexeme: Lexeme)
    requires
        valid_utf8(bytes),
        lexeme.len >= 2,
        lexeme.start + lexeme.len <= bytes.len(),
        lexeme.start + lexeme.len <= usize::MAX,
        bytes[lexeme.start as int] < 0x80,
        bytes[lexeme.start + lexeme.len - 1] < 0x80,
    ensures
        lexeme_in(
            bytes,
            Lexeme { start: (lexeme.start + 1) as usize, len: (lexeme.len - 2) as usize },
        ),
{
    let start = lexeme.start + 1;
    let end = lexeme.start + lexeme.len - 1;
    lemma_ascii_is_boundary(bytes, end);
    lemma_ascii_is_boundary(bytes, lexeme.start as int);
    valid_utf8_split(bytes, end);
    let head = bytes.subrange(0, end);
    if start < end {
        assert(head[start] == bytes[start]);
        is_char_boundary_iff_not_is_continuation_byte(bytes, start);
        is_char_boundary_iff_not_is_continuation_byte(head, start);
    } else {
        is_char_boundary_start_end_of_seq(head);
    }
}

/// Why the text of a lexeme cannot be had.
#[derive(Clone, Copy, Debug, PartialEq, Eq, Structural)]
pub enum LexemeError {
    /// The lexeme does not lie inside the source.
    OutOfRange,
    /// The lexeme starts or ends inside a character.
    SplitsCharacter,
}

/// Scans a source text into tokens, one at each call.
#[derive(Debug)]
pub struct Scanner {
    source: String,
    start: usize,
    current: usize,
    line: usize,
}

impl Scanner {
    /// The source text.
    pub closed spec fn source(&self) -> Seq<char> {
        self.source@
    }

    /// The bytes of the source: its UTF-8 encoding.
    pub open spec fn bytes(&self) -> Seq<u8> {
        encode_utf8(self.source())
    }

    /// The offset where the next scan resumes.
    pub closed spec fn position(&self) -> int {
        self.current as int
    }

    /// The offset where the scan of the last token started.
    pub closed spec fn token_start(&self) -> int {
        self.start as int
    }

    /// The line of the offset where the next scan resumes.
    pub closed spec fn line(&self) -> usize {
        self.line
    }

    /// The position lies inside the source or at its end, and the line is
    /// that of the position.
    pub open spec fn wf(&self) -> bool {
        &&& 0 <= self.position() <= self.bytes().len()
        &&& self.line() == line_at(self.bytes(), self.position())
    }

    pub fn new(source: String) -> (scanner: Self)
        ensures
            scanner.wf(),
            scanner.source() == source@,
            scanner.position() == 0,
    {
        Self { source, start: 0, current: 0, line: 1 }
    }

    /// The number of bytes of the source.
    pub fn len(&self) -> (n: usize)
        ensures
            n == self.bytes().len(),
    {
        self.source_len()
    }

    /// Scans the next token.  What it returns and where it stops is
    /// [`scan`] of the source from the position.  A failed scan has passed
    /// over at least one byte; so has every token but `Eof`, which is
    /// returned at the end of the source, again and again.
    pub fn scan_next(&mut self) -> (r: Result<Token, ScanError>)
        requires
            old(self).wf(),
        ensures
            final(self).wf(),
            final(self).source() == old(self).source(),
            final(self).position() == scan(old(self).bytes(), old(self).position()).end,
            match scan(old(self).bytes(), old(self).position()).token {
                Ok(token) => r is Ok && r->Ok_0 == token,
                Err(message) => {
                    &&& r is Err
                    &&& r->Err_0.message@ == message
                    &&& r->Err_0.line == final(self).line()
                },
            },
            r is Ok ==> token_in(old(self).bytes(), r->Ok_0),
            old(self).position() <= final(self).position(),
            r is Ok && r->Ok_0.token_type == TokenType::Eof ==> final(self).position()
                == old(self).bytes().len(),
            !(r is Ok && r->Ok_0.token_type == TokenType::Eof) ==> old(self).position() < final(self).position(),
    {
        proof {
            lemma_skip_blank(self.bytes(), self.position());
            encode_utf8_valid_utf8(self.source());
        }
        self.skip_whitespace();
        if self.is_at_end() {
            let end = self.source_len();
            let lexeme = Lexeme { start: end, len: 0 };
            proof {
                lemma_lexeme_in(self.bytes(), lexeme);
            }
            return Ok(Token { lexeme, line: self.line, token_type: TokenType::Eof });
        }
        let token_type = match self.scan_token() {
            Ok(token_type) => token_type,
            Err(e) => {
                return Err(e);
            },
        };
        let lexeme = Lexeme { start: self.start, len: self.current - self.start };
        proof {
            lemma_lexeme_in(self.bytes(), lexeme);
            if token_type == TokenType::String {
                lemma_run_end(self.bytes(), self.token_start() + 1, Run::Text);
                lemma_inner_lexeme_in(self.bytes(), lexeme);
            }
        }
        Ok(Token { token_type, lexeme, line: self.line })
    }

    /// The text of a lexeme, if the lexeme lies inside the source and cuts no
    /// character in two.
    pub fn get_lexeme_str(&self, lexeme: &Lexeme) -> (r: Result<&str, LexemeError>)
        ensures
            lexeme.start + lexeme.len > self.bytes().len() ==> r == Err::<&str, LexemeError>(
                LexemeError::OutOfRange,
            ),
            lexeme.start + lexeme.len <= self.bytes().len() && !lexeme_in(self.bytes(), *lexeme)
                ==> r == Err::<&str, LexemeError>(LexemeError::SplitsCharacter),
            lexeme_in(self.bytes(), *lexeme) ==> r is Ok && encode_utf8(r->Ok_0@)
                == self.bytes().subrange(
                lexeme.start as int,
                lexeme.start + lexeme.len,
            ),
    {
        let text = self.source.as_str();
        let len = self.source_len();
        if lexeme.start > len || lexeme.len > len - lexeme.start {
            return Err(LexemeError::OutOfRange);
        }
        let end = lexeme.start + lexeme.len;
        if !text.is_char_boundary(end) {
            return Err(LexemeError::SplitsCharacter);
        }
        let (head, _) = text.split_at(end);
        if !head.is_char_boundary(lexeme.start) {
            return Err(LexemeError::SplitsCharacter);
        }
        let (_, lexeme_text) = head.split_at(lexeme.start);
        assert(lexeme_text.spec_bytes() =~= self.bytes().subrange(
            lexeme.start as int,
            lexeme.start + lexeme.len,
        ));
        Ok(lexeme_text)
    }

    fn skip_whitespace(&mut self)
        requires
            old(self).wf(),
        ensures
            final(self).wf(),
            final(self).source() == old(self).source(),
            final(self).position() == skip_blank(old(self).bytes(), old(self).position()),
    {
        loop
            invariant
                self.wf(),
                self.source() == old(self).source(),
                skip_blank(self.bytes(), self.position()) == skip_blank(
                    old(self).bytes(),
                    old(self).position(),
                ),
            ensures
                self.wf(),
                self.source() == old(self).source(),
                self.position() == skip_blank(old(self).bytes(), old(self).position()),
            decreases self.bytes().len() - self.position(),
        {
            if self.is_at_end() {
                break;
            }
            let c = self.peek();
            if c == ('\n' as u8) || c == (' ' as u8) || c == ('\r' as u8) || c == ('\t' as u8) {
                self.advance();
            } else if c == ('/' as u8) {
                if self.peek_next() == ('/' as u8) {
                    // A comment goes until the end of the line.
                    proof {
                        lemma_run_end(self.bytes(), self.position() + 1, Run::Line);
                    }
                    self.skip_run(Run::Line);
                } else {
                    break;
                }
            } else {
                break;
            }
        }
    }

    /// Passes over the run of kind `run` that starts at the position.
    fn skip_run(&mut self, run: Run)
        requires
            old(self).wf(),
        ensures
            final(self).wf(),
            final(self).source() == old(self).source(),
            final(self).token_start() == old(self).token_start(),
            final(self).position() == run_end(old(self).bytes(), old(self).position(), run),
    {
        loop
            invariant
                self.wf(),
                self.source() == old(self).source(),
                self.token_start() == old(self).token_start(),
                run_end(self.bytes(), self.position(), run) == run_end(
                    old(self).bytes(),
                    old(self).position(),
                    run,
                ),
            ensures
                self.wf(),
                self.source() == old(self).source(),
                self.token_start() == old(self).token_start(),
                self.position() == run_end(old(self).bytes(), old(self).position(), run),
            decreases self.bytes().len() - self.position(),
        {
            if self.is_at_end() {
                break;
            }
            let c = self.peek();
            let inside = match run {
                Run::Digits => Self::is_digit(c),
                Run::Word => Self::is_alphanumeric(c),
                Run::Line => c != ('\n' as u8),
                Run::Text => c != ('"' as u8),
            };
            if !inside {
                break;
            }
            self.advance();
        }
    }

    /// Scans the token that starts at the position.
    fn scan_token(&mut self) -> (r: Result<TokenType, ScanError>)
        requires
            old(self).wf(),
            old(self).position() < old(self).bytes().len(),
        ensures
            final(self).wf(),
            final(self).source() == old(self).source(),
            final(self).token_start() == old(self).position(),
            final(self).position() == lexeme_end(old(self).bytes(), old(self).position()),
            old(self).position() < final(self).position(),
            match lexeme_kind(old(self).bytes(), old(self).position()) {
                Some(token_type) => {
                    &&& r == Ok::<TokenType, ScanError>(token_type)
                    &&& old(self).bytes()[old(self).position()] < 0x80
                    &&& old(self).bytes()[final(self).position() - 1] < 0x80
                },
                None => {
                    &&& r is Err
                    &&& r->Err_0.message@ == scan_fault(old(self).bytes(), old(self).position())
                    &&& r->Err_0.line == final(self).line()
                },
            },
    {
        self.start = self.current;
        let c = self.advance();
        let token_type = if c == ('(' as u8) {
            TokenType::LeftParen
        } else if c == (')' as u8) {
            TokenType::RightParen
        } else if c == ('{' as u8) {
            TokenType::LeftBrace
        } else if c == ('}' as u8) {
            TokenType::RightBrace
        } else if c == (',' as u8) {
            TokenType::Comma
        } else if c == ('.' as u8) {
            TokenType::Dot
        } else if c == ('-' as u8) {
            TokenType::Minus
        } else if c == ('+' as u8) {
            TokenType::Plus
        } else if c == (';' as u8) {
            TokenType::Semicolon
        } else if c == ('*' as u8) {
            TokenType::Star
        } else if c == ('/' as u8) {
            TokenType::Slash
        } else if c == ('!' as u8) {
            if self.char_matches('=' as u8) {
                TokenType::BangEqual
            } else {
                TokenType::Bang
            }
        } else if c == ('=' as u8) {
            if self.char_matches('=' as u8) {
                TokenType::EqualEqual
            } else {
                TokenType::Equal
            }
        } else if c == ('<' as u8) {
            if self.char_matches('=' as u8) {
                TokenType::LessEqual
            } else {
                TokenType::Less
            }
        } else if c == ('>' as u8) {
            if self.char_matches('=' as u8) {
                TokenType::GreaterEqual
            } else {
                TokenType::Greater
            }
        } else if Self::is_digit(c) {
            self.number()
        } else if c == ('"' as u8) {
            match self.string() {
                Ok(token_type) => token_type,
                Err(e) => {
                    return Err(e);
                },
            }
        } else if Self::is_alpha(c) {
            self.identifier()
        } else {
            return Err(
                ScanError { line: self.line, message: String::from_str("Unexpected character.") },
            );
        };
        Ok(token_type)
    }

    /// Scans the rest of a string, behind its opening quote.
    fn string(&mut self) -> (r: Result<TokenType, ScanError>)
        requires
            old(self).wf(),
        ensures
            final(self).wf(),
            final(self).source() == old(self).source(),
            final(self).token_start() == old(self).token_start(),
            old(self).position() <= final(self).position(),
            ({
                let quote = run_end(old(self).bytes(), old(self).position(), Run::Text);
                if quote < old(self).bytes().len() {
                    &&& r == Ok::<TokenType, ScanError>(TokenType::String)
                    &&& final(self).position() == quote + 1
                    &&& old(self).bytes()[quote] == ('"' as u8)
                } else {
                    &&& r is Err
                    &&& r->Err_0.message@ == "Unterminated string."@
                    &&& r->Err_0.line == final(self).line()
                    &&& final(self).position() == quote
                }
            }),
    {
        proof {
            lemma_run_end(self.bytes(), self.position(), Run::Text);
        }
        self.skip_run(Run::Text);
        if self.is_at_end() {
            return Err(
                ScanError { line: self.line, message: String::from_str("Unterminated string.") },
            );
        }
        // The closing quote.
        self.advance();
        Ok(TokenType::String)
    }

    /// Scans the rest of a number, behind its first digit.
    fn number(&mut self) -> (r: TokenType)
        requires
            old(self).wf(),
            old(self).position() >= 1,
            is_digit(old(self).bytes()[old(self).position() - 1]),
        ensures
            final(self).wf(),
            final(self).source() == old(self).source(),
            final(self).token_start() == old(self).token_start(),
            r == TokenType::Number,
            final(self).position() == number_end(old(self).bytes(), old(self).position() - 1),
            old(self).position() <= final(self).position(),
            is_digit(old(self).bytes()[final(self).position() - 1]),
    {
        proof {
            lemma_run_end(self.bytes(), self.position(), Run::Digits);
        }
        self.skip_run(Run::Digits);
        // Look for a fractional part.
        if self.peek() == ('.' as u8) && Self::is_digit(self.peek_next()) {
            // Consume the ".".
            self.advance();
            proof {
                lemma_run_end(self.bytes(), self.position(), Run::Digits);
                assert(run_end(self.bytes(), self.position(), Run::Digits) == run_end(
                    self.bytes(),
                    self.position() + 1,
                    Run::Digits,
                ));
                lemma_run_end(self.bytes(), self.position() + 1, Run::Digits);
            }
            self.skip_run(Run::Digits);
        }
        TokenType::Number
    }

    /// Scans the rest of a word, behind its first letter, and tells a
    /// keyword from an identifier.
    fn identifier(&mut self) -> (r: TokenType)
        requires
            old(self).wf(),
            old(self).token_start() + 1 == old(self).position(),
            is_alpha(old(self).bytes()[old(self).token_start()]),
        ensures
            final(self).wf(),
            final(self).source() == old(self).source(),
            final(self).token_start() == old(self).token_start(),
            final(self).position() == run_end(old(self).bytes(), old(self).position(), Run::Word),
            old(self).position() <= final(self).position(),
            is_alphanumeric(old(self).bytes()[final(self).position() - 1]),
            r == word_kind(
                old(self).bytes().subrange(old(self).token_start(), final(self).position()),
            ),
    {
        proof {
            lemma_run_end(self.bytes(), self.position(), Run::Word);
        }
        self.skip_run(Run::Word);
        proof {
            reveal_strlit("and");
            reveal_strlit("class");
            reveal_strlit("else");
            reveal_strlit("false");
            reveal_strlit("for");
            reveal_strlit("fun");
            reveal_strlit("if");
            reveal_strlit("nil");
            reveal_strlit("or");
            reveal_strlit("print");
            reveal_strlit("return");
            reveal_strlit("super");
            reveal_strlit("this");
            reveal_strlit("true");
            reveal_strlit("var");
            reveal_strlit("while");
        }
        if self.lexeme_is("and") {
            TokenType::And
        } else if self.lexeme_is("class") {
            TokenType::Class
        } else if self.lexeme_is("else") {
            TokenType::Else
        } else if self.lexeme_is("false") {
            TokenType::False
        } else if self.lexeme_is("for") {
            TokenType::For
        } else if self.lexeme_is("fun") {
            TokenType::Fun
        } else if self.lexeme_is("if") {
            TokenType::If
        } else if self.lexeme_is("nil") {
            TokenType::Nil
        } else if self.lexeme_is("or") {
            TokenType::Or
        } else if self.lexeme_is("print") {
            TokenType::Print
        } else if self.lexeme_is("return") {
            TokenType::Return
        } else if self.lexeme_is("super") {
            TokenType::Super
        } else if self.lexeme_is("this") {
            TokenType::This
        } else if self.lexeme_is("true") {
            TokenType::True
        } else if self.lexeme_is("var") {
            TokenType::Var
        } else if self.lexeme_is("while") {
            TokenType::While
        } else {
            TokenType::Identifier
        }
    }

    /// Whether the bytes scanned since the start of the token spell `word`.
    fn lexeme_is(&self, word: &str) -> (r: bool)
        requires
            self.wf(),
            self.token_start() <= self.position(),
            is_ascii(word),
        ensures
            r == (self.bytes().subrange(self.token_start(), self.position()) == ascii(word@)),
    {
        broadcast use is_ascii_spec_bytes;

        let expected = word.as_bytes();
        let bytes = self.source.as_str().as_bytes();
        let len = self.current - self.start;
        let ghost lexeme = self.bytes().subrange(self.token_start(), self.position());
        assert(expected@ =~= ascii(word@));
        if expected.len() != len {
            assert(lexeme.len() != ascii(word@).len());
            return false;
        }
        let mut i: usize = 0;
        while i < len
            invariant
                i <= len,
                len == self.current - self.start,
                self.current <= bytes@.len(),
                expected@.len() == len,
                bytes@ == self.bytes(),
                lexeme == self.bytes().subrange(self.token_start(), self.position()),
                expected@ == ascii(word@),
                forall|j: int| 0 <= j < i ==> lexeme[j] == expected@[j],
            decreases len - i,
        {
            if bytes[self.start + i] != expected[i] {
                assert(lexeme[i as int] != expected@[i as int]);
                return false;
            }
            i = i + 1;
        }
        assert(lexeme =~= expected@);
        true
    }

    /// The number of bytes of the source.
    fn source_len(&self) -> (n: usize)
        ensures
            n == self.bytes().len(),
    {
        self.source.as_str().as_bytes().len()
    }

    fn is_at_end(&self) -> (r: bool)
        requires
            self.wf(),
        ensures
            r == (self.position() >= self.bytes().len()),
            r == (self.position() == self.bytes().len()),
    {
        self.current >= self.source_len()
    }

    fn is_digit(c: u8) -> (r: bool)
        ensures
            r == is_digit(c),
    {
        c >= ('0' as u8) && c <= ('9' as u8)
    }

    fn is_alpha(c: u8) -> (r: bool)
        ensures
            r == is_alpha(c),
    {
        (c >= ('a' as u8) && c <= ('z' as u8)) || (c >= ('A' as u8) && c <= ('Z' as u8)) || c == (
        '_' as u8)
    }

    fn is_alphanumeric(c: u8) -> (r: bool)
        ensures
            r == is_alphanumeric(c),
    {
        Self::is_alpha(c) || Self::is_digit(c)
    }

    /// Passes over the byte at the position if it is `expected`.
    fn char_matches(&mut self, expected: u8) -> (r: bool)
        requires
            old(self).wf(),
            expected != ('\n' as u8),
        ensures
            final(self).wf(),
            final(self).source() == old(self).source(),
            final(self).token_start() == old(self).token_start(),
            r == (old(self).position() < old(self).bytes().len() && old(self).bytes()[old(self).position()] == expected),
            final(self).position() == if r {
                old(self).position() + 1
            } else {
                old(self).position()
            },
    {
        if self.is_at_end() {
            return false;
        }
        if self.current_char() != expected {
            return false;
        }
        self.advance();
        true
    }

    /// Passes over the byte at the position and returns it.
    fn advance(&mut self) -> (c: u8)
        requires
            old(self).wf(),
            old(self).position() < old(self).bytes().len(),
        ensures
            final(self).wf(),
            final(self).source() == old(self).source(),
            final(self).token_start() == old(self).token_start(),
            final(self).position() == old(self).position() + 1,
            c == old(self).bytes()[old(self).position()],
            c != ('\n' as u8) ==> final(self).line() == old(self).line(),
    {
        let len = self.source_len();
        let c = self.current_char();
        self.current = self.current + 1;
        if c == ('\n' as u8) && self.line < usize::MAX {
            self.line = self.line + 1;
        }
        c
    }

    /// The byte at the position, or 0 at the end of the source.
    fn peek(&self) -> (c: u8)
        requires
            self.wf(),
        ensures
            c == byte_at(self.bytes(), self.position()),
    {
        if self.is_at_end() {
            0
        } else {
            self.current_char()
        }
    }

    /// The byte behind the one at the position, or 0 where there is none.
    fn peek_next(&self) -> (c: u8)
        requires
            self.wf(),
        ensures
            c == byte_at(self.bytes(), self.position() + 1),
    {
        let len = self.source_len();
        if self.current >= usize::MAX {
            return 0;
        }
        match self.char_at(self.current + 1) {
            Some(c) => c,
            None => 0,
        }
    }

    fn current_char(&self) -> (c: u8)
        requires
            self.wf(),
            self.position() < self.bytes().len(),
        ensures
            c == self.bytes()[self.position()],
    {
        let bytes = self.source.as_str().as_bytes();
        bytes[self.current]
    }

    fn char_at(&self, index: usize) -> (c: Option<u8>)
        ensures
            index < self.bytes().len() ==> c == Some(self.bytes()[index as int]),
            index >= self.bytes().len() ==> c is None,
    {
        let bytes = self.source.as_str().as_bytes();
        if index >= bytes.len() {
            None
        } else {
            Some(bytes[index])
        }
    }
}

} // verus!
