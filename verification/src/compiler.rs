//! The compiler: a single pass over the tokens that parses by precedence
//! climbing and writes bytecode as it goes.

use vstd::prelude::*;
use vstd::string::*;
use vstd::utf8::*;
use crate::chunk::Chunk;
use crate::parse;
use crate::parse::{ErrorView, Input, LocalView, Parse, Step};
use crate::instruction::{encode, Instruction, InstructionWriter, OpCode};
use crate::program::{
    all_wf,
    compiled,
    is_boundary,
    lands,
    lemma_encode_len,
    lemma_encode_patch,
    lemma_encode_push,
    lemma_lands_extends,
    lemma_lands_patched,
    lemma_names_constant_extends,
    lemma_offset_agrees,
    names_constant,
    offset_of,
};
use crate::rules::{rule_for, ParseFn, ParseRule, ParseRuleTable, Precedence};
use crate::scanner::{token_in, Lexeme, ScanError, Scanner, Token, TokenType};
use crate::text::{decimal, decimal_text};
use crate::value::{views, Number, Value};

verus! {

/// The most local variables that can be alive at once: a slot must fit in
/// one byte.
pub const MAX_LOCALS: usize = 256;

/// An error found while compiling.
#[derive(Debug)]
pub enum CompileError {
    /// The tokens do not make a program: what is wrong, the text of the
    /// token where it was noticed, and the line of that token.
    Parse { msg: String, lexeme: String, line: usize },
    /// The source does not make tokens.
    Scan(ScanError),
}

impl CompileError {
    pub fn parse_error(msg: String, lexeme: String, line: usize) -> (e: Self)
        ensures
            e == (CompileError::Parse { msg, lexeme, line }),
    {
        CompileError::Parse { msg, lexeme, line }
    }

    /// The diagnostic of the error.
    pub open spec fn spec_text(&self) -> Seq<char> {
        match self {
            CompileError::Parse { msg, lexeme, line } => "[line "@ + decimal(*line as nat)
                + "] Compile error: '"@ + lexeme@ + "' - "@ + msg@,
            CompileError::Scan(e) => e.spec_text(),
        }
    }

    pub fn to_text(&self) -> (text: String)
        ensures
            text@ == self.spec_text(),
    {
        match self {
            CompileError::Parse { msg, lexeme, line } => {
                let mut text = String::from_str("[line ");
                text.append(decimal_text(*line as u64).as_str());
                text.append("] Compile error: '");
                text.append(lexeme.as_str());
                text.append("' - ");
                text.append(msg.as_str());
                text
            },
            CompileError::Scan(e) => e.to_text(),
        }
    }
}

impl Clone for CompileError {
    fn clone(&self) -> (r: Self)
        ensures
            r == *self,
    {
        match self {
            CompileError::Parse { msg, lexeme, line } => CompileError::Parse {
                msg: msg.clone(),
                lexeme: lexeme.clone(),
                line: *line,
            },
            CompileError::Scan(e) => CompileError::Scan(e.clone()),
        }
    }
}

/// The errors of one compilation, in the order in which they were found.
#[derive(Debug)]
pub struct CompileErrorCollection {
    pub errors: Vec<CompileError>,
}

/// The diagnostics of the errors, each followed by a line feed.
pub open spec fn diagnostics(errors: Seq<CompileError>) -> Seq<char>
    decreases errors.len(),
{
    if errors.len() == 0 {
        Seq::<char>::empty()
    } else {
        diagnostics(errors.drop_last()) + errors.last().spec_text() + "\n"@
    }
}

impl CompileErrorCollection {
    pub fn to_text(&self) -> (text: String)
        ensures
            text@ == diagnostics(self.errors@),
    {
        let mut text = String::from_str("");
        proof {
            reveal_strlit("");
            assert(text@ =~= Seq::<char>::empty());
        }
        let mut i: usize = 0;
        while i < self.errors.len()
            invariant
                i <= self.errors@.len(),
                text@ == diagnostics(self.errors@.take(i as int)),
            decreases self.errors@.len() - i,
        {
            text.append(self.errors[i].to_text().as_str());
            text.append("\n");
            proof {
                assert(self.errors@.take(i + 1).drop_last() =~= self.errors@.take(i as int));
            }
            i = i + 1;
        }
        proof {
            assert(self.errors@.take(i as int) =~= self.errors@);
        }
        text
    }
}

/// A local variable: its name, the depth of the scope that declared it, and
/// whether its initializer has been compiled.  The place of a local in the
/// list of locals is its stack slot at run time.
#[derive(Debug)]
pub struct Local {
    pub name: String,
    pub depth: i32,
    pub initialized: bool,
}

impl View for Local {
    type V = LocalView;

    open spec fn view(&self) -> LocalView {
        LocalView { name: self.name@, depth: self.depth, initialized: self.initialized }
    }
}

impl View for CompileError {
    type V = ErrorView;

    open spec fn view(&self) -> ErrorView {
        match self {
            CompileError::Parse { msg, lexeme, line } => ErrorView::Parse {
                msg: msg@,
                lexeme: lexeme@,
                line: *line,
            },
            CompileError::Scan(e) => ErrorView::Scan { line: e.line, message: e.message@ },
        }
    }
}

/// The views of a list of locals.
pub open spec fn local_views(locals: Seq<Local>) -> Seq<LocalView> {
    locals.map_values(|local: Local| local@)
}

/// The views of a list of errors.
pub open spec fn error_views(errors: Seq<CompileError>) -> Seq<ErrorView> {
    errors.map_values(|error: CompileError| error@)
}

/// Whether a step of the compiler did what `step` says: it left the state
/// `after`, and gave up with the message of `step` if `step` gives up.
pub open spec fn obeys(after: Parse, r: Result<(), String>, step: Step) -> bool {
    &&& after == step.state
    &&& match step.abort {
        None => r is Ok,
        Some(message) => r is Err && r->Err_0@ == message,
    }
}

/// Whether a step of the compiler that makes an operand did what `step`
/// says, and made the operand that comes with `step`.
pub open spec fn obeys_with(after: Parse, r: Result<u8, String>, step: (Step, u8)) -> bool {
    &&& after == step.0.state
    &&& match step.0.abort {
        None => r == Ok::<u8, String>(step.1),
        Some(message) => r is Err && r->Err_0@ == message,
    }
}

/// Whether `r` is the result `expected`: a chunk with that code, those lines
/// and those constants, or those errors.
pub open spec fn gives(
    r: Result<Chunk, CompileErrorCollection>,
    expected: Result<parse::Compiled, Seq<ErrorView>>,
) -> bool {
    match expected {
        Ok(compiled) => {
            &&& r is Ok
            &&& r->Ok_0.code() == compiled.code
            &&& r->Ok_0.lines() == compiled.lines
            &&& views(r->Ok_0.constants()) == compiled.constants
        },
        Err(errors) => r is Err && error_views(r->Err_0.errors@) == errors,
    }
}

/// Whether `numbers` is what `parse_number` computes: whatever the function
/// returns for a text is what `numbers` gives for it.
pub open spec fn describes<P: Fn(&str) -> Option<Number>>(
    numbers: spec_fn(Seq<char>) -> Option<Number>,
    parse_number: P,
) -> bool {
    forall|text: &str, r: Option<Number>| #[trigger]
        call_ensures(parse_number, (text,), r) ==> r == numbers(text@)
}

/// A compilation in progress.  It pulls tokens from the scanner and writes
/// code as it parses; it keeps the token that comes next and the token taken
/// last, the locals that are alive, and the errors found so far.
pub struct Compiler {
    scanner: Scanner,
    writer: InstructionWriter,
    current_token: Option<Token>,
    prev_token: Option<Token>,
    scope_depth: i32,
    locals: Vec<Local>,
    errors: Vec<CompileError>,
    panic_mode: bool,
    parse_rules: ParseRuleTable,
    /// The instructions written so far; the code is their encoding.
    program: Ghost<Seq<Instruction>>,
    /// The places in the program of the jumps that still await their target.
    pending: Ghost<Set<int>>,
}

impl Compiler {
    /// The source text.
    pub closed spec fn source(&self) -> Seq<char> {
        self.scanner.source()
    }

    /// The bytes of the source.
    pub closed spec fn bytes(&self) -> Seq<u8> {
        self.scanner.bytes()
    }

    /// What the compiler is given, if `numbers` is what the caller makes of
    /// the text of a number.
    pub open spec fn input(&self, numbers: spec_fn(Seq<char>) -> Option<Number>) -> Input {
        Input { bytes: self.bytes(), numbers }
    }

    /// The state of the compilation.
    spec fn state(&self) -> Parse {
        Parse {
            position: self.scanner.position(),
            current: self.current_token,
            prev: self.prev_token,
            code: self.writer.code(),
            lines: self.writer.lines(),
            constants: views(self.writer.constants()),
            scope_depth: self.scope_depth,
            locals: local_views(self.locals@),
            errors: error_views(self.errors@),
            panic_mode: self.panic_mode,
        }
    }

    /// The number of source bytes not yet scanned, and one more while the
    /// current token is not `Eof`: it falls with every token that is taken.
    spec fn tokens_left(&self) -> nat {
        let unread = (self.scanner.bytes().len() - self.scanner.position()) as nat;
        match self.current_token {
            Some(token) => if token.token_type != TokenType::Eof {
                unread + 1
            } else {
                unread
            },
            None => unread,
        }
    }

    /// The code is the encoding of the program, every jump that is not
    /// pending lands well, and every constant operand names a fitting
    /// constant.
    spec fn code_inv(&self) -> bool {
        &&& self.writer.wf()
        &&& self.writer.code() == encode(self.program@)
        &&& all_wf(self.program@)
        &&& forall|i: int| #[trigger]
            self.pending@.contains(i) ==> 0 <= i < self.program@.len() && (
            self.program@[i].op_code == OpCode::Jump || self.program@[i].op_code
                == OpCode::JumpIfFalse)
        &&& forall|i: int|
            0 <= i < self.program@.len() && !self.pending@.contains(i) ==> #[trigger] lands(
                self.program@,
                i,
            )
        &&& forall|i: int|
            0 <= i < self.program@.len() ==> #[trigger] names_constant(
                self.program@,
                self.writer.constants(),
                i,
            )
    }

    /// The tokens at hand lie in the source, and an `Eof` is only at hand at
    /// the end of the source.
    spec fn token_inv(&self) -> bool {
        &&& self.scanner.wf()
        &&& valid_utf8(self.scanner.bytes())
        &&& self.current_token matches Some(token) ==> token_in(self.scanner.bytes(), token)
        &&& self.prev_token matches Some(token) ==> token_in(self.scanner.bytes(), token)
        &&& self.current_token matches Some(token) ==> (token.token_type == TokenType::Eof
            ==> self.scanner.position() == self.scanner.bytes().len())
    }

    /// What holds of a compiler at all times.
    spec fn inv(&self) -> bool {
        &&& self.code_inv()
        &&& self.token_inv()
        &&& self.parse_rules.complete()
        &&& self.locals@.len() <= MAX_LOCALS
        &&& self.scope_depth >= 0
        &&& self.panic_mode ==> self.errors@.len() > 0
    }

    /// Whether the first token has been scanned.
    spec fn started(&self) -> bool {
        self.current_token is Some
    }

    /// Whether the scanner and the tokens at hand are those of `before`.
    spec fn same_tokens(&self, before: &Self) -> bool {
        &&& self.scanner == before.scanner
        &&& self.current_token == before.current_token
        &&& self.prev_token == before.prev_token
    }

    /// Whether the scope depth and the locals are those of `before`.
    spec fn same_scope(&self, before: &Self) -> bool {
        &&& self.scope_depth == before.scope_depth
        &&& self.locals == before.locals
        &&& self.parse_rules == before.parse_rules
    }

    /// Whether the errors are those of `before`.
    spec fn same_errors(&self, before: &Self) -> bool {
        &&& self.errors == before.errors
        &&& self.panic_mode == before.panic_mode
    }

    /// Whether nothing but the code, the constants and the program differs
    /// from `before`.
    spec fn same_parse_state(&self, before: &Self) -> bool {
        &&& self.same_tokens(before)
        &&& self.same_scope(before)
        &&& self.same_errors(before)
    }

    /// Whether the code, the constants and the program are those of
    /// `before`.
    spec fn same_code(&self, before: &Self) -> bool {
        &&& self.writer.same_as(&before.writer)
        &&& self.program@ == before.program@
        &&& self.pending@ == before.pending@
    }

    /// What every step of the compilation keeps: the invariant holds, the
    /// source is the same, no token comes back, the program as it was is
    /// still there, with the same jumps of it pending, and no error is
    /// forgotten.
    spec fn follows(&self, before: &Self) -> bool {
        &&& self.inv()
        &&& self.started()
        &&& self.source() == before.source()
        &&& self.tokens_left() <= before.tokens_left()
        &&& before.program@.len() <= self.program@.len()
        &&& forall|i: int|
            0 <= i < before.program@.len() ==> #[trigger] self.program@[i] == before.program@[i]
        &&& forall|i: int|
            0 <= i < before.program@.len() ==> (#[trigger] self.pending@.contains(i)
                == before.pending@.contains(i))
        &&& self.errors@.len() >= before.errors@.len()
        &&& before.writer.constants().len() <= self.writer.constants().len()
        &&& forall|k: int|
            0 <= k < before.writer.constants().len() ==> #[trigger] self.writer.constants()[k]
                == before.writer.constants()[k]
    }

    /// Whether the current token is `Eof`.
    spec fn at_eof(&self) -> bool {
        self.current_token matches Some(token) && token.token_type == TokenType::Eof
    }

    /// What a parse function leaves: all that a step keeps; a token less,
    /// unless it started at the end of the tokens; and on success what a
    /// step that succeeded leaves.
    spec fn parsed(&self, before: &Self, ok: bool) -> bool {
        &&& self.follows(before)
        &&& !before.at_eof() ==> self.tokens_left() < before.tokens_left()
        &&& ok ==> self.settled(before)
    }

    /// What the compilation of a piece of an expression leaves: all that a
    /// step keeps, the scopes and locals as they were, and on success no
    /// jump of its own pending.
    spec fn handled(&self, before: &Self, ok: bool) -> bool {
        &&& self.follows(before)
        &&& self.same_scope(before)
        &&& ok ==> self.pending@ == before.pending@
    }

    /// Whether the token before the current one is of a kind whose rule
    /// names `parse_fn`.
    spec fn prev_calls(&self, parse_fn: ParseFn) -> bool {
        self.prev_token matches Some(token) && (rule_for(token.token_type).prefix == Some(
            parse_fn,
        ) || rule_for(token.token_type).infix == Some(parse_fn))
    }

    /// A compiler as [`Compiler::new`] makes it.
    pub closed spec fn ready(&self) -> bool {
        &&& self.inv()
        &&& self.pending@ =~= Set::<int>::empty()
        &&& self.state() == parse::initial()
    }

    /// What a step that succeeded leaves besides: no jump of its own
    /// pending, and the scope depth as it was.
    spec fn settled(&self, before: &Self) -> bool {
        &&& self.pending@ == before.pending@
        &&& self.scope_depth == before.scope_depth
    }

    pub fn new(source: String) -> (compiler: Self)
        ensures
            compiler.ready(),
            compiler.source() == source@,
            compiler.bytes() == encode_utf8(source@),
    {
        let parse_rules = Self::set_up_parse_rules();
        let compiler = Self {
            scanner: Scanner::new(source),
            writer: InstructionWriter::with_new_chunk(),
            current_token: None,
            prev_token: None,
            scope_depth: 0,
            locals: Vec::new(),
            errors: Vec::new(),
            panic_mode: false,
            parse_rules,
            program: Ghost(Seq::empty()),
            pending: Ghost(Set::empty()),
        };
        proof {
            encode_utf8_valid_utf8(source@);
            assert(compiler.writer.code() =~= encode(compiler.program@));
            assert(compiler.state().constants =~= parse::initial().constants);
            assert(compiler.state().locals =~= parse::initial().locals);
            assert(compiler.state().errors =~= parse::initial().errors);
        }
        compiler
    }

    /// Compiles the source into a chunk.  `parse_number` gives the number
    /// that the text of a number token stands for, or `None` if it stands
    /// for none.
    ///
    /// What is returned is what [`parse::compile`] says, for every function
    /// `numbers` that describes what `parse_number` computes: the chunk with
    /// the code, the lines and the constants if no error was recorded, and
    /// else the errors, in the order in which they were recorded.
    ///
    /// The code of a chunk that is returned is the encoding of a program that
    /// ends in `Return`, whose jumps all lead to the start of an instruction
    /// or to the end of the code, and whose constant operands all name a
    /// constant of the chunk, a string where the operand stands for a global.
    pub fn compile<P: Fn(&str) -> Option<Number>>(self, parse_number: &P) -> (r: Result<
        Chunk,
        CompileErrorCollection,
    >)
        requires
            self.ready(),
            forall|text: &str| call_requires(*parse_number, (text,)),
        ensures
            match r {
                Ok(chunk) => chunk.wf() && exists|program: Seq<Instruction>| #[trigger]
                    compiled(chunk, program),
                Err(collection) => collection.errors@.len() > 0,
            },
            forall|numbers: spec_fn(Seq<char>) -> Option<Number>| #[trigger]
                describes(numbers, *parse_number) ==> gives(
                    r,
                    parse::compile(self.input(numbers)),
                ),
    {
        let mut compiler = self;
        compiler.advance();
        compiler.declarations(parse_number);

        if compiler.errors.len() > 0 {
            return Err(CompileErrorCollection { errors: compiler.errors });
        }
        let line = match &compiler.current_token {
            Some(token) => Compiler::line_of(token),
            None => 0,
        };
        compiler.emit(OpCode::Return, line);

        proof {
            assert(compiled(compiler.writer.chunk(), compiler.program@));
        }
        Ok(compiler.writer.to_chunk())
    }

    /// Compiles declarations up to the end of the tokens.
    fn declarations<P: Fn(&str) -> Option<Number>>(&mut self, parse_number: &P)
        requires
            old(self).inv(),
            old(self).started(),
            old(self).errors@.len() == 0 ==> old(self).pending@ =~= Set::<int>::empty(),
            forall|text: &str| call_requires(*parse_number, (text,)),
        ensures
            final(self).inv(),
            final(self).started(),
            final(self).bytes() == old(self).bytes(),
            final(self).errors@.len() == 0 ==> final(self).pending@ =~= Set::<int>::empty(),
            forall|numbers: spec_fn(Seq<char>) -> Option<Number>| #[trigger]
                describes(numbers, *parse_number) ==> final(self).state() == parse::declarations(
                    old(self).input(numbers),
                    old(self).state(),
                ),
    {
        loop
            invariant_except_break
                forall|numbers: spec_fn(Seq<char>) -> Option<Number>| #[trigger]
                    describes(numbers, *parse_number) ==> parse::declarations(
                        self.input(numbers),
                        self.state(),
                    ) == parse::declarations(old(self).input(numbers), old(self).state()),
            invariant
                self.inv(),
                self.started(),
                self.bytes() == old(self).bytes(),
                self.errors@.len() == 0 ==> self.pending@ =~= Set::<int>::empty(),
                forall|text: &str| call_requires(*parse_number, (text,)),
            ensures
                self.inv(),
                self.started(),
                self.bytes() == old(self).bytes(),
                self.errors@.len() == 0 ==> self.pending@ =~= Set::<int>::empty(),
                forall|numbers: spec_fn(Seq<char>) -> Option<Number>| #[trigger]
                    describes(numbers, *parse_number) ==> self.state() == parse::declarations(
                        old(self).input(numbers),
                        old(self).state(),
                    ),
            decreases self.tokens_left(),
        {
            if self.matches(&TokenType::Eof) {
                break;
            }
            self.top_level(parse_number);
        }
    }

    /// Compiles a declaration at the top level.  If it gives up, that is
    /// recorded as a parse error at the current token.
    fn top_level<P: Fn(&str) -> Option<Number>>(&mut self, parse_number: &P)
        requires
            old(self).inv(),
            old(self).started(),
            forall|text: &str| call_requires(*parse_number, (text,)),
        ensures
            final(self).inv(),
            final(self).started(),
            final(self).bytes() == old(self).bytes(),
            !old(self).at_eof() ==> final(self).tokens_left() < old(self).tokens_left(),
            old(self).errors@.len() > 0 ==> final(self).errors@.len() > 0,
            final(self).errors@.len() == 0 ==> final(self).pending@ == old(self).pending@,
            forall|numbers: spec_fn(Seq<char>) -> Option<Number>| #[trigger]
                describes(numbers, *parse_number) ==> final(self).state() == parse::top_level(
                    old(self).input(numbers),
                    old(self).state(),
                ),
    {
        reveal(parse::top_level);
        match self.declaration(parse_number) {
            Ok(_) => {},
            Err(e) => {
                self.push_current_parse_error(e);
            },
        }
    }

    /// Builds the table of parse rules.
    fn set_up_parse_rules() -> (table: ParseRuleTable)
        ensures
            table.complete(),
    {
        let mut table = ParseRuleTable::new();

        table.add(&TokenType::LeftParen, Some(ParseFn::Grouping), None, Precedence::Lowest);
        table.add_null(&TokenType::RightParen);
        table.add_null(&TokenType::LeftBrace);
        table.add_null(&TokenType::RightBrace);
        table.add_null(&TokenType::Comma);
        table.add_null(&TokenType::Dot);
        table.add(
            &TokenType::Minus,
            Some(ParseFn::Unary),
            Some(ParseFn::Binary),
            Precedence::Term,
        );
        table.add(&TokenType::Plus, None, Some(ParseFn::Binary), Precedence::Term);
        table.add_null(&TokenType::Semicolon);
        table.add(&TokenType::Slash, None, Some(ParseFn::Binary), Precedence::Factor);
        table.add(&TokenType::Star, None, Some(ParseFn::Binary), Precedence::Factor);

        table.add(&TokenType::Bang, Some(ParseFn::Unary), None, Precedence::Lowest);
        table.add(&TokenType::BangEqual, None, Some(ParseFn::Binary), Precedence::Equality);
        table.add_null(&TokenType::Equal);
        table.add(&TokenType::EqualEqual, None, Some(ParseFn::Binary), Precedence::Equality);
        table.add(&TokenType::Greater, None, Some(ParseFn::Binary), Precedence::Comparison);
        table.add(&TokenType::GreaterEqual, None, Some(ParseFn::Binary), Precedence::Comparison);
        table.add(&TokenType::Less, None, Some(ParseFn::Binary), Precedence::Comparison);
        table.add(&TokenType::LessEqual, None, Some(ParseFn::Binary), Precedence::Comparison);

        table.add(&TokenType::Identifier, Some(ParseFn::Variable), None, Precedence::Lowest);
        table.add(&TokenType::String, Some(ParseFn::String), None, Precedence::Lowest);
        table.add(&TokenType::Number, Some(ParseFn::Number), None, Precedence::Lowest);

        table.add(&TokenType::And, None, Some(ParseFn::And), Precedence::And);
        table.add_null(&TokenType::Class);
        table.add_null(&TokenType::Else);
        table.add(&TokenType::False, Some(ParseFn::Literal), None, Precedence::Lowest);
        table.add_null(&TokenType::Fun);
        table.add_null(&TokenType::For);
        table.add_null(&TokenType::If);
        table.add(&TokenType::Nil, Some(ParseFn::Literal), None, Precedence::Lowest);
        table.add(&TokenType::Or, None, Some(ParseFn::Or), Precedence::Or);
        table.add_null(&TokenType::Print);
        table.add_null(&TokenType::Return);
        table.add_null(&TokenType::Super);
        table.add_null(&TokenType::This);
        table.add(&TokenType::True, Some(ParseFn::Literal), None, Precedence::Lowest);
        table.add_null(&TokenType::Var);
        table.add_null(&TokenType::While);

        table.add_null(&TokenType::Eof);

        table
    }

    /// The invariant of the code survives one more instruction, if the
    /// instruction is well formed, its constant operand fits, and it lands
    /// well or is counted among the pending jumps.
    proof fn lemma_pushed(before: &Self, after: &Self, ins: Instruction)
        requires
            before.code_inv(),
            after.writer.wf(),
            ins.wf(),
            after.writer.code() == before.writer.code() + ins.bytes(),
            after.program@ == before.program@.push(ins),
            before.writer.constants().len() <= after.writer.constants().len(),
            forall|k: int|
                0 <= k < before.writer.constants().len() ==> (
                #[trigger] before.writer.constants()[k]) == after.writer.constants()[k],
            names_constant(after.program@, after.writer.constants(), before.program@.len() as int),
            after.pending@ == before.pending@ || ((ins.op_code == OpCode::Jump || ins.op_code
                == OpCode::JumpIfFalse) && after.pending@ == before.pending@.insert(
                before.program@.len() as int,
            )),
            after.pending@ == before.pending@ ==> lands(
                after.program@,
                before.program@.len() as int,
            ),
        ensures
            after.code_inv(),
    {
        let p = before.program@;
        let q = after.program@;
        lemma_encode_push(p, ins);
        assert forall|i: int| 0 <= i < q.len() && !after.pending@.contains(i) implies #[trigger] lands(
            q,
            i,
        ) by {
            if i < p.len() {
                lemma_lands_extends(p, q, i);
            }
        }
        assert forall|i: int| 0 <= i < q.len() implies #[trigger] names_constant(
            q,
            after.writer.constants(),
            i,
        ) by {
            if i < p.len() {
                assert(names_constant(p, before.writer.constants(), i));
                lemma_names_constant_extends(
                    p,
                    q,
                    before.writer.constants(),
                    after.writer.constants(),
                    i,
                );
            }
        }
    }

    /// The line of a token as the code records it; lines beyond the largest
    /// `i32` are recorded as that.
    fn line_of(token: &Token) -> (line: i32)
        ensures
            line == parse::line_of(*token),
    {
        if token.line > i32::MAX as usize {
            i32::MAX
        } else {
            token.line as i32
        }
    }

    /// Appends an instruction without operands.
    fn emit(&mut self, op_code: OpCode, line: i32)
        requires
            old(self).inv(),
            old(self).started(),
            op_code.arity() == 0,
        ensures
            final(self).follows(old(self)),
            final(self).same_parse_state(old(self)),
            final(self).program@ == old(self).program@.push(
                Instruction { op_code, operand1: None, operand2: None },
            ),
            final(self).pending@ == old(self).pending@,
            final(self).writer.constants() == old(self).writer.constants(),
            final(self).state() == parse::emit(old(self).state(), op_code, line),
    {
        let ghost ins = Instruction { op_code, operand1: None, operand2: None };
        self.writer.write_op_code(op_code, line);
        proof {
            assert(self.state().lines =~= parse::emit(old(self).state(), op_code, line).lines);
            self.program@ = self.program@.push(ins);
            assert(ins.bytes() =~= seq![op_code.spec_byte()]);
            Self::lemma_pushed(old(self), self, ins);
        }
    }

    /// Appends an instruction with one operand.
    fn emit_operand(&mut self, op_code: OpCode, operand: u8, line: i32)
        requires
            old(self).inv(),
            old(self).started(),
            op_code.arity() == 1,
            names_constant(
                seq![Instruction { op_code, operand1: Some(operand), operand2: None }],
                old(self).writer.constants(),
                0,
            ),
        ensures
            final(self).follows(old(self)),
            final(self).same_parse_state(old(self)),
            final(self).program@ == old(self).program@.push(
                Instruction { op_code, operand1: Some(operand), operand2: None },
            ),
            final(self).pending@ == old(self).pending@,
            final(self).writer.constants() == old(self).writer.constants(),
            final(self).state() == parse::emit_operand(old(self).state(), op_code, operand, line),
    {
        let ghost ins = Instruction { op_code, operand1: Some(operand), operand2: None };
        self.writer.write_op_code_with_operand(op_code, operand, line);
        proof {
            assert(self.state().lines =~= parse::emit_operand(
                old(self).state(),
                op_code,
                operand,
                line,
            ).lines);
            self.program@ = self.program@.push(ins);
            assert(ins.bytes() =~= seq![op_code.spec_byte(), operand]);
            Self::lemma_pushed(old(self), self, ins);
        }
    }

    /// Adds a constant and appends the instruction that loads it.
    fn emit_constant(&mut self, value: Value, line: i32) -> (r: Result<(), String>)
        requires
            old(self).inv(),
            old(self).started(),
        ensures
            final(self).follows(old(self)),
            final(self).same_parse_state(old(self)),
            final(self).pending@ == old(self).pending@,
            r is Ok <==> old(self).writer.constants().len() < 256,
            r is Ok ==> {
                &&& final(self).writer.constants() == old(self).writer.constants().push(value)
                &&& final(self).program@ == old(self).program@.push(
                    Instruction {
                        op_code: OpCode::Constant,
                        operand1: Some(old(self).writer.constants().len() as u8),
                        operand2: None,
                    },
                )
            },
            r is Err ==> {
                &&& r->Err_0@ == "Too many constants in chunk"@
                &&& final(self).same_code(old(self))
            },
            obeys(final(self).state(), r, parse::emit_constant(old(self).state(), value@, line)),
    {
        let ghost ins = Instruction {
            op_code: OpCode::Constant,
            operand1: Some(self.writer.constants().len() as u8),
            operand2: None,
        };
        let ghost step = parse::emit_constant(old(self).state(), value@, line);
        match self.writer.write_const(value, line) {
            Ok(_) => {
                proof {
                    self.program@ = self.program@.push(ins);
                    Self::lemma_pushed(old(self), self, ins);
                    assert(self.state().lines =~= step.state.lines);
                    assert(self.state().code =~= step.state.code);
                    assert(self.state().constants =~= step.state.constants);
                }
                Ok(())
            },
            Err(e) => {
                proof {
                    self.lemma_same_code(old(self));
                    assert(self.state().constants =~= step.state.constants);
                }
                Err(e.message())
            },
        }
    }

    /// The invariant of the code depends on the code, the constants and the
    /// program alone.
    proof fn lemma_same_code(&self, before: &Self)
        requires
            before.code_inv(),
            self.writer.wf(),
            self.writer.same_as(&before.writer),
            self.program@ == before.program@,
            self.pending@ == before.pending@,
        ensures
            self.code_inv(),
    {
        assert forall|i: int| 0 <= i < self.program@.len() implies #[trigger] names_constant(
            self.program@,
            self.writer.constants(),
            i,
        ) by {
            assert(names_constant(before.program@, before.writer.constants(), i));
        }
    }

    /// Adds the name of a global to the constants and returns its index.
    fn identifier_constant(&mut self, name: String) -> (r: Result<u8, String>)
        requires
            old(self).inv(),
            old(self).started(),
        ensures
            final(self).follows(old(self)),
            final(self).same_parse_state(old(self)),
            final(self).program@ == old(self).program@,
            final(self).pending@ == old(self).pending@,
            r is Ok ==> {
                &&& r->Ok_0 < final(self).writer.constants().len()
                &&& final(self).writer.constants()[r->Ok_0 as int] is String
            },
            r is Err ==> r->Err_0@ == "Too many constants in chunk"@,
            obeys_with(final(self).state(), r, parse::identifier_constant(old(self).state(), name@)),
    {
        let r = self.writer.add_constant(Value::String(name));
        proof {
            assert(self.state().constants =~= parse::identifier_constant(
                old(self).state(),
                name@,
            ).0.state.constants);
            let p = self.program@;
            assert forall|i: int| 0 <= i < p.len() implies #[trigger] names_constant(
                p,
                self.writer.constants(),
                i,
            ) by {
                assert(names_constant(p, old(self).writer.constants(), i));
                lemma_names_constant_extends(
                    p,
                    p,
                    old(self).writer.constants(),
                    self.writer.constants(),
                    i,
                );
            }
        }
        match r {
            Ok(index) => Ok(index),
            Err(e) => Err(e.message()),
        }
    }

    /// Appends a forward jump whose target is not yet known and returns the
    /// offset of its opcode.  The jump is pending until it is patched.
    fn emit_jump(&mut self, op_code: OpCode, line: i32) -> (start: usize)
        requires
            old(self).inv(),
            old(self).started(),
            op_code == OpCode::Jump || op_code == OpCode::JumpIfFalse,
        ensures
            final(self).follows(old(self)),
            final(self).same_parse_state(old(self)),
            final(self).program@ == old(self).program@.push(
                Instruction { op_code, operand1: Some(0xffu8), operand2: Some(0xffu8) },
            ),
            final(self).pending@ == old(self).pending@.insert(old(self).program@.len() as int),
            !old(self).pending@.contains(old(self).program@.len() as int),
            final(self).writer.constants() == old(self).writer.constants(),
            start == offset_of(final(self).program@, old(self).program@.len() as int),
            start == old(self).state().code.len(),
            final(self).state() == parse::emit_jump(old(self).state(), op_code, line),
    {
        let ghost ins = Instruction { op_code, operand1: Some(0xffu8), operand2: Some(0xffu8) };
        let start = if op_code == OpCode::Jump {
            self.writer.write_jump(line)
        } else {
            self.writer.write_jump_if_false(line)
        };
        proof {
            self.program@ = self.program@.push(ins);
            self.pending@ = self.pending@.insert(old(self).program@.len() as int);
            assert(self.state().lines =~= parse::emit_jump(old(self).state(), op_code, line).lines);
            assert(!old(self).pending@.contains(old(self).program@.len() as int));
            assert(self.pending@.contains(old(self).program@.len() as int));
            assert(ins.bytes() =~= seq![op_code.spec_byte(), 0xffu8, 0xffu8]);
            Self::lemma_pushed(old(self), self, ins);
            lemma_encode_len(old(self).program@);
            lemma_offset_agrees(
                old(self).program@,
                self.program@,
                old(self).program@.len() as int,
            );
        }
        start
    }

    /// Makes the pending jump at offset `start`, instruction `index` of the
    /// program, land at the end of the code as it is now.
    fn patch_jump(&mut self, start: usize, Ghost(index): Ghost<int>) -> (r: Result<(), String>)
        requires
            old(self).inv(),
            old(self).started(),
            old(self).pending@.contains(index),
            start == offset_of(old(self).program@, index),
        ensures
            final(self).follows_patch(old(self), index),
            final(self).same_parse_state(old(self)),
            r is Ok ==> final(self).pending@ == old(self).pending@.remove(index),
            r is Err ==> final(self).same_code(old(self)),
            obeys(final(self).state(), r, parse::patch_jump(old(self).state(), start as int)),
    {
        let ghost p = self.program@;
        proof {
            lemma_encode_len(p);
            lemma_encode_patch(p, index, 0, 0);
        }
        match self.writer.patch_jump_to_chunk_end(start) {
            Ok(()) => {
                proof {
                    let len = old(self).writer.code().len() as int;
                    let distance = len - (start + 3);
                    let high = (distance / 256) as u8;
                    let low = (distance % 256) as u8;
                    let patch = Instruction {
                        op_code: p[index].op_code,
                        operand1: Some(high),
                        operand2: Some(low),
                    };
                    let q = p.update(index, patch);
                    lemma_encode_patch(p, index, high, low);
                    self.program@ = q;
                    self.pending@ = self.pending@.remove(index);
                    assert(patch.distance() == distance);
                    lemma_offset_agrees(p, q, index);
                    lemma_offset_agrees(p, q, p.len() as int);
                    assert(offset_of(q, q.len() as int) == len);
                    assert(lands(q, index));
                    assert forall|i: int|
                        0 <= i < q.len() && !self.pending@.contains(i) implies #[trigger] lands(
                        q,
                        i,
                    ) by {
                        if i != index {
                            lemma_lands_patched(p, index, patch, i);
                        }
                    }
                    assert forall|i: int| 0 <= i < q.len() implies #[trigger] names_constant(
                        q,
                        self.writer.constants(),
                        i,
                    ) by {
                        assert(names_constant(p, old(self).writer.constants(), i));
                    }
                }
                Ok(())
            },
            Err(e) => {
                proof {
                    self.lemma_same_code(old(self));
                    assert(self.state().constants =~= old(self).state().constants);
                }
                Err(e.message())
            },
        }
    }

    /// What a patch of the jump at `index` keeps: all that a step keeps,
    /// except that the jump itself has new operands and may no longer be
    /// pending.
    spec fn follows_patch(&self, before: &Self, index: int) -> bool {
        &&& self.inv()
        &&& self.started()
        &&& self.program@.len() == before.program@.len()
        &&& forall|i: int|
            0 <= i < before.program@.len() && i != index ==> #[trigger] self.program@[i]
                == before.program@[i]
        &&& forall|i: int|
            0 <= i < before.program@.len() && i != index ==> (#[trigger] self.pending@.contains(i)
                == before.pending@.contains(i))
        &&& self.program@[index].op_code == before.program@[index].op_code
        &&& self.writer.constants() == before.writer.constants()
    }

    /// Appends a jump back to offset `loop_start`, where an instruction of
    /// the program starts.
    fn emit_loop(&mut self, loop_start: usize, line: i32) -> (r: Result<(), String>)
        requires
            old(self).inv(),
            old(self).started(),
            is_boundary(old(self).program@, loop_start as int),
        ensures
            final(self).follows(old(self)),
            final(self).same_parse_state(old(self)),
            final(self).pending@ == old(self).pending@,
            final(self).writer.constants() == old(self).writer.constants(),
            r is Err ==> final(self).same_code(old(self)),
            obeys(final(self).state(), r, parse::emit_loop(old(self).state(), loop_start as int, line)),
    {
        let ghost p = self.program@;
        proof {
            lemma_encode_len(p);
        }
        match self.writer.write_loop(loop_start, line) {
            Ok(_) => {
                proof {
                    let len = old(self).writer.code().len() as int;
                    let distance = len + 3 - loop_start;
                    let ins = Instruction {
                        op_code: OpCode::Loop,
                        operand1: Some((distance / 256) as u8),
                        operand2: Some((distance % 256) as u8),
                    };
                    let q = p.push(ins);
                    self.program@ = q;
                    assert(ins.bytes() =~= seq![
                        OpCode::Loop.spec_byte(),
                        (distance / 256) as u8,
                        (distance % 256) as u8,
                    ]);
                    assert(ins.distance() == distance);
                    lemma_offset_agrees(p, q, p.len() as int);
                    let j = choose|j: int|
                        0 <= j <= p.len() && #[trigger] offset_of(p, j) == loop_start as int;
                    lemma_offset_agrees(p, q, j);
                    assert(offset_of(q, j) == loop_start as int);
                    assert(lands(q, p.len() as int));
                    Self::lemma_pushed(old(self), self, ins);
                    assert(self.state().lines =~= parse::emit_loop(
                        old(self).state(),
                        loop_start as int,
                        line,
                    ).state.lines);
                }
                Ok(())
            },
            Err(e) => {
                proof {
                    self.lemma_same_code(old(self));
                }
                Err(e.message())
            },
        }
    }

    /// The token before the current one.
    fn prev(&self) -> (r: Result<Token, String>)
        ensures
            match self.prev_token {
                Some(token) => r == Ok::<Token, String>(token),
                None => r is Err && r->Err_0@ == "prev token is null"@,
            },
    {
        match self.prev_token {
            Some(token) => Ok(token),
            None => Err(String::from_str("prev token is null")),
        }
    }

    /// The current token.
    fn current(&self) -> (r: Result<Token, String>)
        ensures
            match self.current_token {
                Some(token) => r == Ok::<Token, String>(token),
                None => r is Err && r->Err_0@ == "current token is null"@,
            },
    {
        match self.current_token {
            Some(token) => Ok(token),
            None => Err(String::from_str("current token is null")),
        }
    }

    /// The text of a lexeme that lies well in the source.
    fn lexeme_text(&self, lexeme: &Lexeme) -> (text: String)
        requires
            crate::scanner::lexeme_in(self.scanner.bytes(), *lexeme),
        ensures
            text@ == parse::lexeme_chars(self.scanner.bytes(), *lexeme),
    {
        match self.scanner.get_lexeme_str(lexeme) {
            Ok(text) => {
                proof {
                    encode_utf8_decode_utf8(text@);
                }
                String::from_str(text)
            },
            Err(_) => String::new(),
        }
    }

    /// The text of a token at hand.
    fn lexeme_str(&self, token: &Token) -> (text: String)
        requires
            token_in(self.scanner.bytes(), *token),
        ensures
            text@ == parse::lexeme_chars(self.scanner.bytes(), token.lexeme),
    {
        self.lexeme_text(&token.lexeme)
    }

    /// The text of the token before the current one.
    fn prev_lexeme_str(&self) -> (r: Result<String, String>)
        requires
            self.inv(),
        ensures
            match self.prev_token {
                Some(token) => r is Ok && r->Ok_0@ == parse::lexeme_chars(
                    self.scanner.bytes(),
                    token.lexeme,
                ),
                None => r is Err && r->Err_0@ == "No prev token. Can't get prev lexeme"@,
            },
    {
        match &self.prev_token {
            Some(token) => Ok(self.lexeme_str(token)),
            None => Err(String::from_str("No prev token. Can't get prev lexeme")),
        }
    }

    /// Whether the current token is of the given kind.
    fn check(&self, token_type: &TokenType) -> (r: bool)
        ensures
            r == (self.current_token matches Some(token) && token.token_type == *token_type),
            r == parse::check(self.state(), *token_type),
    {
        match &self.current_token {
            Some(token) => token.token_type == *token_type,
            None => false,
        }
    }

    /// Whether the token before the current one is of the given kind.
    fn check_prev(&self, token_type: &TokenType) -> (r: bool)
        ensures
            r == (self.prev_token matches Some(token) && token.token_type == *token_type),
            r == parse::check_prev(self.state(), *token_type),
    {
        match &self.prev_token {
            Some(token) => token.token_type == *token_type,
            None => false,
        }
    }

    /// The parse rule of a token kind.
    fn get_rule(&self, operator_type: &TokenType) -> (rule: ParseRule)
        requires
            self.inv(),
        ensures
            rule == rule_for(*operator_type),
    {
        match self.parse_rules.get(operator_type) {
            Some(rule) => rule,
            None => ParseRule::new(None, None, Precedence::Lowest),
        }
    }

    fn get_token_rule(&self, token: &Token) -> (rule: ParseRule)
        requires
            self.inv(),
        ensures
            rule == rule_for(token.token_type),
    {
        self.get_rule(&token.token_type)
    }

    /// The parse rule of the current token.
    fn current_rule(&self) -> (r: Result<ParseRule, String>)
        requires
            self.inv(),
        ensures
            match self.current_token {
                Some(token) => r == Ok::<ParseRule, String>(rule_for(token.token_type)),
                None => r is Err,
            },
    {
        match self.current() {
            Ok(token) => Ok(self.get_token_rule(&token)),
            Err(e) => Err(e),
        }
    }

    /// The parse rule of the token before the current one.
    fn prev_rule(&self) -> (r: Result<ParseRule, String>)
        requires
            self.inv(),
        ensures
            match self.prev_token {
                Some(token) => r == Ok::<ParseRule, String>(rule_for(token.token_type)),
                None => r is Err,
            },
    {
        match self.prev() {
            Ok(token) => Ok(self.get_token_rule(&token)),
            Err(e) => Err(e),
        }
    }

    /// Records an error, unless an earlier error of the same statement
    /// already was.
    fn push_error(&mut self, error: CompileError)
        requires
            old(self).inv(),
        ensures
            final(self).inv(),
            final(self).same_tokens(old(self)),
            final(self).same_scope(old(self)),
            final(self).same_code(old(self)),
            final(self).writer == old(self).writer,
            final(self).panic_mode,
            final(self).errors@.len() >= old(self).errors@.len(),
            final(self).state() == parse::record(old(self).state(), error@),
    {
        if !self.panic_mode {
            self.errors.push(error);
            self.panic_mode = true;
            proof {
                assert(error_views(self.errors@) =~= error_views(old(self).errors@).push(error@));
            }
        }
    }

    fn push_scan_error(&mut self, scan_err: ScanError)
        requires
            old(self).inv(),
        ensures
            final(self).inv(),
            final(self).same_tokens(old(self)),
            final(self).same_scope(old(self)),
            final(self).same_code(old(self)),
            final(self).writer == old(self).writer,
            final(self).panic_mode,
            final(self).errors@.len() >= old(self).errors@.len(),
            final(self).state() == parse::record(
                old(self).state(),
                ErrorView::Scan { line: scan_err.line, message: scan_err.message@ },
            ),
    {
        self.push_error(CompileError::Scan(scan_err))
    }

    /// Records a parse error at the given token.
    fn push_parse_error(&mut self, msg: String, token: Token)
        requires
            old(self).inv(),
            token_in(old(self).scanner.bytes(), token),
        ensures
            final(self).inv(),
            final(self).same_tokens(old(self)),
            final(self).same_scope(old(self)),
            final(self).same_code(old(self)),
            final(self).writer == old(self).writer,
            final(self).panic_mode,
            final(self).errors@.len() >= old(self).errors@.len(),
            final(self).state() == parse::record(
                old(self).state(),
                ErrorView::Parse {
                    msg: msg@,
                    lexeme: parse::lexeme_chars(old(self).bytes(), token.lexeme),
                    line: token.line,
                },
            ),
    {
        let lexeme = self.lexeme_str(&token);
        self.push_error(CompileError::parse_error(msg, lexeme, token.line))
    }

    /// Records a parse error at the current token.
    fn push_current_parse_error(&mut self, msg: String)
        requires
            old(self).inv(),
            old(self).started(),
        ensures
            final(self).follows(old(self)),
            final(self).same_tokens(old(self)),
            final(self).same_scope(old(self)),
            final(self).same_code(old(self)),
            final(self).writer == old(self).writer,
            final(self).panic_mode,
            final(self).state() == parse::error_here(old(self).bytes(), old(self).state(), msg@),
    {
        match self.current_token {
            Some(token) => self.push_parse_error(msg, token),
            None => {},
        }
    }

    /// Takes the current token and scans the next one, recording the scan
    /// errors on the way.
    fn advance(&mut self)
        requires
            old(self).inv(),
        ensures
            final(self).inv(),
            final(self).started(),
            old(self).started() ==> final(self).follows(old(self)),
            final(self).source() == old(self).source(),
            final(self).same_scope(old(self)),
            final(self).same_code(old(self)),
            final(self).writer == old(self).writer,
            final(self).errors@.len() >= old(self).errors@.len(),
            final(self).prev_token == old(self).current_token,
            final(self).tokens_left() <= old(self).tokens_left(),
            (old(self).current_token matches Some(token) && token.token_type != TokenType::Eof)
                ==> final(self).tokens_left() < old(self).tokens_left(),
            final(self).state() == parse::advance(old(self).bytes(), old(self).state()),
    {
        self.prev_token = self.current_token;
        loop
            invariant_except_break
                self.inv(),
                self.current_token == old(self).current_token,
                parse::scan_on(self.bytes(), self.state()) == parse::advance(
                    old(self).bytes(),
                    old(self).state(),
                ),
            invariant
                self.scanner.wf(),
                self.source() == old(self).source(),
                self.same_scope(old(self)),
                self.same_code(old(self)),
                self.writer == old(self).writer,
                self.errors@.len() >= old(self).errors@.len(),
                self.prev_token == old(self).current_token,
                old(self).scanner.position() <= self.scanner.position(),
            ensures
                self.inv(),
                self.started(),
                self.tokens_left() <= old(self).tokens_left(),
                (old(self).current_token matches Some(token) && token.token_type
                    != TokenType::Eof) ==> self.tokens_left() < old(self).tokens_left(),
                self.state() == parse::advance(old(self).bytes(), old(self).state()),
            decreases self.scanner.bytes().len() - self.scanner.position(),
        {
            match self.scanner.scan_next() {
                Ok(token) => {
                    self.current_token = Some(token);
                    break;
                },
                Err(e) => {
                    self.push_scan_error(e);
                },
            }
        }
    }

    /// Takes the current token if it is of the given kind, and records a
    /// parse error with the given message if it is not.
    fn consume(&mut self, token_type: &TokenType, message: &str)
        requires
            old(self).inv(),
            old(self).started(),
        ensures
            final(self).follows(old(self)),
            final(self).same_scope(old(self)),
            final(self).same_code(old(self)),
            final(self).writer == old(self).writer,
            final(self).state() == parse::consume(
                old(self).bytes(),
                old(self).state(),
                *token_type,
                message@,
            ),
    {
        if self.check(token_type) {
            self.advance();
        } else {
            self.push_current_parse_error(String::from_str(message));
        }
    }

    /// Takes the current token if it is of the given kind, and says whether
    /// it was.
    fn matches(&mut self, token_type: &TokenType) -> (r: bool)
        requires
            old(self).inv(),
            old(self).started(),
        ensures
            final(self).follows(old(self)),
            final(self).same_scope(old(self)),
            final(self).same_code(old(self)),
            final(self).writer == old(self).writer,
            r == (old(self).current_token matches Some(token) && token.token_type == *token_type),
            r == parse::check(old(self).state(), *token_type),
            r ==> final(self).prev_token == old(self).current_token,
            r && *token_type != TokenType::Eof ==> final(self).tokens_left() < old(self).tokens_left(),
            !r ==> final(self).same_tokens(old(self)) && final(self).same_errors(old(self)),
            final(self).state() == parse::matches(old(self).bytes(), old(self).state(), *token_type),
            r ==> final(self).state() == parse::advance(old(self).bytes(), old(self).state()),
            !r ==> final(self).state() == old(self).state(),
    {
        if !self.check(token_type) {
            return false;
        }
        self.advance();
        true
    }

    /// Leaves panic mode and skips tokens up to the start of the next
    /// statement: behind a semicolon, or before a keyword that starts a
    /// statement.
    fn synchronize(&mut self)
        requires
            old(self).inv(),
            old(self).started(),
        ensures
            final(self).follows(old(self)),
            final(self).same_scope(old(self)),
            final(self).same_code(old(self)),
            final(self).writer == old(self).writer,
            final(self).state() == parse::synchronize(old(self).bytes(), old(self).state()),
    {
        self.panic_mode = false;
        loop
            invariant
                self.follows(old(self)),
                self.same_scope(old(self)),
                self.same_code(old(self)),
                self.writer == old(self).writer,
                parse::skip_to_statement(self.bytes(), self.state()) == parse::synchronize(
                    old(self).bytes(),
                    old(self).state(),
                ),
            ensures
                self.state() == parse::synchronize(old(self).bytes(), old(self).state()),
            decreases self.tokens_left(),
        {
            if self.check(&TokenType::Eof) {
                break;
            }
            if self.check_prev(&TokenType::Semicolon) {
                return;
            }
            match &self.current_token {
                Some(token) => {
                    match token.token_type {
                        TokenType::Class
                        | TokenType::Fun
                        | TokenType::Var
                        | TokenType::For
                        | TokenType::If
                        | TokenType::While
                        | TokenType::Print
                        | TokenType::Return => {
                            return;
                        },
                        _ => {},
                    };
                },
                _ => {},
            }
            self.advance();
        }
    }

    /// Opens a scope.
    fn begin_scope(&mut self) -> (r: Result<(), String>)
        requires
            old(self).inv(),
            old(self).started(),
        ensures
            final(self).follows(old(self)),
            final(self).same_tokens(old(self)),
            final(self).same_code(old(self)),
            final(self).writer == old(self).writer,
            final(self).locals == old(self).locals,
            r is Ok ==> final(self).scope_depth == old(self).scope_depth + 1,
            r is Err ==> final(self).scope_depth == old(self).scope_depth,
            obeys(final(self).state(), r, parse::begin_scope(old(self).state())),
    {
        if self.scope_depth == i32::MAX {
            return Err(String::from_str("Too many nested scopes"));
        }
        self.scope_depth = self.scope_depth + 1;
        Ok(())
    }

    /// Closes the innermost scope: the locals that it declared leave the
    /// list, and one `Pop` is written for each of them.
    fn end_scope(&mut self) -> (r: Result<(), String>)
        requires
            old(self).inv(),
            old(self).started(),
            old(self).scope_depth >= 1,
        ensures
            final(self).follows(old(self)),
            final(self).same_tokens(old(self)),
            final(self).pending@ == old(self).pending@,
            final(self).scope_depth == old(self).scope_depth - 1,
            obeys(final(self).state(), r, parse::end_scope(old(self).state())),
    {
        self.scope_depth = self.scope_depth - 1;
        loop
            invariant
                self.follows(old(self)),
                self.same_tokens(old(self)),
                self.pending@ == old(self).pending@,
                self.scope_depth == old(self).scope_depth - 1,
                parse::pop_locals(self.state()) == parse::end_scope(old(self).state()),
            ensures
                parse::end_scope(old(self).state()) == parse::go(self.state()),
            decreases self.locals@.len(),
        {
            let count = self.locals.len();
            if count == 0 {
                break;
            }
            if self.locals[count - 1].depth <= self.scope_depth {
                break;
            }
            let line = match self.prev() {
                Ok(token) => Self::line_of(&token),
                Err(e) => {
                    return Err(e);
                },
            };
            let ghost before = self.state();
            self.emit(OpCode::Pop, line);
            self.locals.pop();
            proof {
                assert(local_views(self.locals@) =~= before.locals.drop_last());
            }
        }
        Ok(())
    }

    /// Declares a local in the innermost scope; it is not yet initialized.
    fn add_local(&mut self, name: String) -> (r: Result<(), String>)
        requires
            old(self).inv(),
            old(self).started(),
        ensures
            final(self).follows(old(self)),
            final(self).same_tokens(old(self)),
            final(self).same_code(old(self)),
            final(self).writer == old(self).writer,
            final(self).scope_depth == old(self).scope_depth,
            obeys(final(self).state(), r, parse::add_local(old(self).state(), name@)),
    {
        if self.locals.len() >= MAX_LOCALS {
            return Err(String::from_str("Too many locals"));
        }
        self.locals.push(Local { name, depth: self.scope_depth, initialized: false });
        proof {
            assert(local_views(self.locals@) =~= local_views(old(self).locals@).push(
                LocalView { name: name@, depth: self.scope_depth, initialized: false },
            ));
        }
        Ok(())
    }

    /// The slot of the local that a name refers to: the one declared last
    /// with this name.  A name that refers to no local is a global.  A local
    /// whose initializer is still being compiled cannot be referred to.
    fn resolve_local(&self, name: &String) -> (r: Result<Option<u8>, String>)
        requires
            self.inv(),
        ensures
            match parse::resolved_slot(self.state().locals, name@) {
                None => r == Ok::<Option<u8>, String>(None),
                Some(slot) => if self.state().locals[slot].initialized {
                    r == Ok::<Option<u8>, String>(Some(slot as u8)) && slot < MAX_LOCALS
                } else {
                    r is Err && r->Err_0@ == "Use of uninitialized local variable "@ + name@
                },
            },
    {
        let ghost locals = local_views(self.locals@);
        let mut i: usize = self.locals.len();
        proof {
            assert(locals.take(i as int) =~= locals);
        }
        while i > 0
            invariant
                i <= self.locals@.len(),
                self.locals@.len() <= MAX_LOCALS,
                locals == local_views(self.locals@),
                locals == self.state().locals,
                parse::resolved_slot(locals, name@) == parse::resolved_slot(
                    locals.take(i as int),
                    name@,
                ),
            decreases i,
        {
            i = i - 1;
            let local = &self.locals[i];
            proof {
                assert(locals.take(i + 1).drop_last() =~= locals.take(i as int));
            }
            if local.name == *name {
                if !local.initialized {
                    return Err(
                        String::from_str("Use of uninitialized local variable ").concat(
                            name.as_str(),
                        ),
                    );
                }
                return Ok(Some(i as u8));
            }
        }
        Ok(None)
    }

    /// Declares the variable whose name is the previous token, if it is a
    /// local.
    fn declare_variable(&mut self) -> (r: Result<(), String>)
        requires
            old(self).inv(),
            old(self).started(),
        ensures
            final(self).follows(old(self)),
            final(self).same_tokens(old(self)),
            final(self).same_code(old(self)),
            final(self).writer == old(self).writer,
            final(self).scope_depth == old(self).scope_depth,
            obeys(
                final(self).state(),
                r,
                parse::declare_variable(old(self).bytes(), old(self).state()),
            ),
    {
        if self.scope_depth == 0 {
            return Ok(());
        }
        let name = self.prev_lexeme_str()?;
        self.add_local(name)
    }

    /// Makes the variable just declared usable: a local is marked
    /// initialized, a global is defined from the value on the stack.
    fn define_variable(&mut self, index: u8) -> (r: Result<(), String>)
        requires
            old(self).inv(),
            old(self).started(),
            old(self).scope_depth == 0 ==> index < old(self).writer.constants().len() && old(self).writer.constants()[index as int] is String,
        ensures
            final(self).follows(old(self)),
            final(self).same_tokens(old(self)),
            final(self).pending@ == old(self).pending@,
            final(self).scope_depth == old(self).scope_depth,
            obeys(final(self).state(), r, parse::define_variable(old(self).state(), index)),
    {
        if self.scope_depth > 0 {
            match self.locals.pop() {
                Some(local) => {
                    self.locals.push(
                        Local { name: local.name, depth: local.depth, initialized: true },
                    );
                    proof {
                        let before = local_views(old(self).locals@);
                        assert(local_views(self.locals@) =~= before.update(
                            before.len() - 1,
                            LocalView { initialized: true, ..before.last() },
                        ));
                    }
                },
                None => {},
            }
            return Ok(());
        }
        let line = Self::line_of(&self.prev()?);
        self.emit_operand(OpCode::DefineGlobal, index, line);
        Ok(())
    }

    /// Takes the name of a variable and declares it.  For a global, returns
    /// the index of the constant that holds its name.
    fn parse_variable(&mut self, msg: &str) -> (r: Result<u8, String>)
        requires
            old(self).inv(),
            old(self).started(),
        ensures
            final(self).follows(old(self)),
            final(self).program@ == old(self).program@,
            final(self).pending@ == old(self).pending@,
            final(self).scope_depth == old(self).scope_depth,
            r is Ok && old(self).scope_depth == 0 ==> r->Ok_0 < final(self).writer.constants().len() && final(self).writer.constants()[r->Ok_0 as int] is String,
            obeys_with(
                final(self).state(),
                r,
                parse::parse_variable(old(self).bytes(), old(self).state(), msg@),
            ),
    {
        self.consume(&TokenType::Identifier, msg);
        self.declare_variable()?;
        if self.scope_depth > 0 {
            return Ok(0);
        }
        let c = self.prev_lexeme_str()?;
        self.identifier_constant(c)
    }

    /// Compiles a declaration: a variable declaration or a statement.  After
    /// an error it skips to the start of the next statement.
    fn declaration<P: Fn(&str) -> Option<Number>>(&mut self, parse_number: &P) -> (r: Result<
        (),
        String,
    >)
        requires
            old(self).inv(),
            old(self).started(),
            forall|text: &str| call_requires(*parse_number, (text,)),
        ensures
            final(self).parsed(old(self), r is Ok),
            forall|numbers: spec_fn(Seq<char>) -> Option<Number>| #[trigger]
                describes(numbers, *parse_number) ==> obeys(
                    final(self).state(),
                    r,
                    parse::declaration(old(self).input(numbers), old(self).state()),
                ),
        decreases old(self).tokens_left(), 9int,
    {
        if self.matches(&TokenType::Var) {
            self.var_declaration(parse_number)?;
        } else {
            self.statement(parse_number)?;
        }
        if self.panic_mode {
            self.synchronize();
        }
        Ok(())
    }

    /// Compiles a variable declaration, behind its `var`.
    fn var_declaration<P: Fn(&str) -> Option<Number>>(&mut self, parse_number: &P) -> (r:
        Result<(), String>)
        requires
            old(self).inv(),
            old(self).started(),
            forall|text: &str| call_requires(*parse_number, (text,)),
        ensures
            final(self).follows(old(self)),
            r is Ok ==> final(self).settled(old(self)),
            forall|numbers: spec_fn(Seq<char>) -> Option<Number>| #[trigger]
                describes(numbers, *parse_number) ==> obeys(
                    final(self).state(),
                    r,
                    parse::var_declaration(old(self).input(numbers), old(self).state()),
                ),
        decreases old(self).tokens_left(), 8int,
    {
        let global = self.parse_variable("Expected variable name")?;
        if self.matches(&TokenType::Equal) {
            self.expression(parse_number)?;
        } else {
            let line = Self::line_of(&self.prev()?);
            self.emit(OpCode::Nil, line);
        }
        self.consume(&TokenType::Semicolon, "Expected ';' after variable declaration.");
        self.define_variable(global)
    }

    /// Compiles a statement.
    fn statement<P: Fn(&str) -> Option<Number>>(&mut self, parse_number: &P) -> (r: Result<
        (),
        String,
    >)
        requires
            old(self).inv(),
            old(self).started(),
            forall|text: &str| call_requires(*parse_number, (text,)),
        ensures
            final(self).parsed(old(self), r is Ok),
            forall|numbers: spec_fn(Seq<char>) -> Option<Number>| #[trigger]
                describes(numbers, *parse_number) ==> obeys(
                    final(self).state(),
                    r,
                    parse::statement(old(self).input(numbers), old(self).state()),
                ),
        decreases old(self).tokens_left(), 8int,
    {
        if self.matches(&TokenType::Print) {
            self.print_statement(parse_number)?;
        } else if self.matches(&TokenType::LeftBrace) {
            self.begin_scope()?;
            self.block(parse_number)?;
            self.end_scope()?;
        } else if self.matches(&TokenType::If) {
            self.if_statement(parse_number)?;
        } else if self.matches(&TokenType::While) {
            self.while_statement(parse_number)?;
        } else {
            self.expression_statement(parse_number)?;
        }
        Ok(())
    }

    /// Compiles an `if` statement, behind its `if`: the condition, a jump
    /// over the first branch taken when the condition is false, the first
    /// branch, a jump over the second branch, and the second branch if
    /// there is one.
    fn if_statement<P: Fn(&str) -> Option<Number>>(&mut self, parse_number: &P) -> (r: Result<
        (),
        String,
    >)
        requires
            old(self).inv(),
            old(self).started(),
            forall|text: &str| call_requires(*parse_number, (text,)),
        ensures
            final(self).follows(old(self)),
            r is Ok ==> final(self).settled(old(self)),
            forall|numbers: spec_fn(Seq<char>) -> Option<Number>| #[trigger]
                describes(numbers, *parse_number) ==> obeys(
                    final(self).state(),
                    r,
                    parse::if_statement(old(self).input(numbers), old(self).state()),
                ),
        decreases old(self).tokens_left(), 10int,
    {
        self.consume(&TokenType::LeftParen, "Expected '(' after 'if'.");
        self.expression(parse_number)?;
        self.consume(&TokenType::RightParen, "Expected ')' after condition");

        let line = Self::line_of(&self.prev()?);
        let ghost if_index = self.program@.len() as int;
        let if_jump_addr = self.emit_jump(OpCode::JumpIfFalse, line);
        let ghost if_program = self.program@;
        // Pops the value of the condition.
        self.emit(OpCode::Pop, line);

        self.statement(parse_number)?;

        let ghost else_index = self.program@.len() as int;
        let else_jump_addr = self.emit_jump(OpCode::Jump, line);
        let ghost else_program = self.program@;

        proof {
            lemma_offset_agrees(if_program, self.program@, if_index);
        }
        self.patch_jump(if_jump_addr, Ghost(if_index))?;
        // Pops the value of the condition.
        self.emit(OpCode::Pop, line);

        if self.matches(&TokenType::Else) {
            self.statement(parse_number)?;
        }
        proof {
            lemma_offset_agrees(else_program, self.program@, else_index);
        }
        self.patch_jump(else_jump_addr, Ghost(else_index))?;
        proof {
            assert(self.pending@ =~= old(self).pending@);
        }
        Ok(())
    }

    /// Compiles a `while` statement, behind its `while`: the condition, a
    /// jump out of the loop taken when the condition is false, the body,
    /// and a jump back to the condition.
    fn while_statement<P: Fn(&str) -> Option<Number>>(&mut self, parse_number: &P) -> (r:
        Result<(), String>)
        requires
            old(self).inv(),
            old(self).started(),
            forall|text: &str| call_requires(*parse_number, (text,)),
        ensures
            final(self).follows(old(self)),
            r is Ok ==> final(self).settled(old(self)),
            forall|numbers: spec_fn(Seq<char>) -> Option<Number>| #[trigger]
                describes(numbers, *parse_number) ==> obeys(
                    final(self).state(),
                    r,
                    parse::while_statement(old(self).input(numbers), old(self).state()),
                ),
        decreases old(self).tokens_left(), 10int,
    {
        let loop_start = self.writer.len();
        let ghost start_index = self.program@.len() as int;
        proof {
            lemma_encode_len(self.program@);
        }

        self.consume(&TokenType::LeftParen, "Expected '(' after 'while'.");
        self.expression(parse_number)?;
        self.consume(&TokenType::RightParen, "Expected ')' after condition");

        let line = Self::line_of(&self.prev()?);
        let ghost exit_index = self.program@.len() as int;
        let exit_jump_addr = self.emit_jump(OpCode::JumpIfFalse, line);
        let ghost exit_program = self.program@;
        // Pops the value of the condition.
        self.emit(OpCode::Pop, line);

        self.statement(parse_number)?;

        proof {
            lemma_offset_agrees(old(self).program@, self.program@, start_index);
            assert(offset_of(self.program@, start_index) == loop_start as int);
        }
        self.emit_loop(loop_start, line)?;

        proof {
            lemma_offset_agrees(exit_program, self.program@, exit_index);
        }
        self.patch_jump(exit_jump_addr, Ghost(exit_index))?;
        // Pops the value of the condition.
        self.emit(OpCode::Pop, line);
        proof {
            assert(self.pending@ =~= old(self).pending@);
        }
        Ok(())
    }

    /// Compiles a `print` statement, behind its `print`.
    fn print_statement<P: Fn(&str) -> Option<Number>>(&mut self, parse_number: &P) -> (r:
        Result<(), String>)
        requires
            old(self).inv(),
            old(self).started(),
            forall|text: &str| call_requires(*parse_number, (text,)),
        ensures
            final(self).follows(old(self)),
            r is Ok ==> final(self).settled(old(self)),
            forall|numbers: spec_fn(Seq<char>) -> Option<Number>| #[trigger]
                describes(numbers, *parse_number) ==> obeys(
                    final(self).state(),
                    r,
                    parse::print_statement(old(self).input(numbers), old(self).state()),
                ),
        decreases old(self).tokens_left(), 7int,
    {
        self.expression(parse_number)?;
        self.consume(&TokenType::Semicolon, "Expected ';' after value.");

        let line = Self::line_of(&self.prev()?);
        self.emit(OpCode::Print, line);
        Ok(())
    }

    /// Compiles the declarations of a block, behind its `{`, up to its `}`.
    fn block<P: Fn(&str) -> Option<Number>>(&mut self, parse_number: &P) -> (r: Result<
        (),
        String,
    >)
        requires
            old(self).inv(),
            old(self).started(),
            forall|text: &str| call_requires(*parse_number, (text,)),
        ensures
            final(self).follows(old(self)),
            r is Ok ==> final(self).settled(old(self)),
            forall|numbers: spec_fn(Seq<char>) -> Option<Number>| #[trigger]
                describes(numbers, *parse_number) ==> obeys(
                    final(self).state(),
                    r,
                    parse::block(old(self).input(numbers), old(self).state()),
                ),
        decreases old(self).tokens_left(), 10int,
    {
        loop
            invariant
                self.follows(old(self)),
                self.settled(old(self)),
                forall|text: &str| call_requires(*parse_number, (text,)),
                forall|numbers: spec_fn(Seq<char>) -> Option<Number>| #[trigger]
                    describes(numbers, *parse_number) ==> parse::after_items(
                        self.bytes(),
                        parse::block_items(self.input(numbers), self.state()),
                    ) == parse::block(old(self).input(numbers), old(self).state()),
            ensures
                forall|numbers: spec_fn(Seq<char>) -> Option<Number>| #[trigger]
                    describes(numbers, *parse_number) ==> parse::after_items(
                        self.bytes(),
                        parse::go(self.state()),
                    ) == parse::block(old(self).input(numbers), old(self).state()),
            decreases self.tokens_left(),
        {
            if self.check(&TokenType::RightBrace) || self.check(&TokenType::Eof) {
                break;
            }
            self.declaration(parse_number)?;
        }
        self.consume(&TokenType::RightBrace, "Expected '}' after block");
        Ok(())
    }

    /// Compiles an expression statement: the value of the expression is
    /// dropped.
    fn expression_statement<P: Fn(&str) -> Option<Number>>(&mut self, parse_number: &P) -> (r:
        Result<(), String>)
        requires
            old(self).inv(),
            old(self).started(),
            forall|text: &str| call_requires(*parse_number, (text,)),
        ensures
            final(self).parsed(old(self), r is Ok),
            forall|numbers: spec_fn(Seq<char>) -> Option<Number>| #[trigger]
                describes(numbers, *parse_number) ==> obeys(
                    final(self).state(),
                    r,
                    parse::expression_statement(old(self).input(numbers), old(self).state()),
                ),
        decreases old(self).tokens_left(), 7int,
    {
        self.expression(parse_number)?;
        self.consume(&TokenType::Semicolon, "Expected ';' after expression.");

        let line = Self::line_of(&self.prev()?);
        self.emit(OpCode::Pop, line);
        Ok(())
    }

    /// Compiles an expression.
    fn expression<P: Fn(&str) -> Option<Number>>(&mut self, parse_number: &P) -> (r: Result<
        (),
        String,
    >)
        requires
            old(self).inv(),
            old(self).started(),
            forall|text: &str| call_requires(*parse_number, (text,)),
        ensures
            final(self).parsed(old(self), r is Ok),
            final(self).handled(old(self), r is Ok),
            forall|numbers: spec_fn(Seq<char>) -> Option<Number>| #[trigger]
                describes(numbers, *parse_number) ==> obeys(
                    final(self).state(),
                    r,
                    parse::expression(old(self).input(numbers), old(self).state()),
                ),
        decreases old(self).tokens_left(), 5int,
    {
        self.parse_precedence(&Precedence::Assignment, parse_number)
    }

    /// Compiles the expression between two parentheses, behind the first.
    fn grouping<P: Fn(&str) -> Option<Number>>(&mut self, _can_assign: bool, parse_number: &P)
        -> (r: Result<(), String>)
        requires
            old(self).inv(),
            old(self).started(),
            forall|text: &str| call_requires(*parse_number, (text,)),
        ensures
            final(self).handled(old(self), r is Ok),
            forall|numbers: spec_fn(Seq<char>) -> Option<Number>| #[trigger]
                describes(numbers, *parse_number) ==> obeys(
                    final(self).state(),
                    r,
                    parse::grouping(old(self).input(numbers), old(self).state()),
                ),
        decreases old(self).tokens_left(), 6int,
    {
        self.expression(parse_number)?;
        self.consume(&TokenType::RightParen, "Expected ')'");
        Ok(())
    }

    /// Compiles the right operand of an `and`: it is skipped when the left
    /// operand, which then is the result, is false.
    fn and<P: Fn(&str) -> Option<Number>>(&mut self, _can_assign: bool, parse_number: &P) -> (r:
        Result<(), String>)
        requires
            old(self).inv(),
            old(self).started(),
            forall|text: &str| call_requires(*parse_number, (text,)),
        ensures
            final(self).handled(old(self), r is Ok),
            forall|numbers: spec_fn(Seq<char>) -> Option<Number>| #[trigger]
                describes(numbers, *parse_number) ==> obeys(
                    final(self).state(),
                    r,
                    parse::and(old(self).input(numbers), old(self).state()),
                ),
        decreases old(self).tokens_left(), 6int,
    {
        let line = Self::line_of(&self.prev()?);
        let ghost end_index = self.program@.len() as int;
        let end_jump_addr = self.emit_jump(OpCode::JumpIfFalse, line);
        let ghost end_program = self.program@;
        // Pops the value of the left operand.
        self.emit(OpCode::Pop, line);

        self.parse_precedence(&Precedence::And, parse_number)?;

        proof {
            lemma_offset_agrees(end_program, self.program@, end_index);
        }
        self.patch_jump(end_jump_addr, Ghost(end_index))?;
        proof {
            assert(self.pending@ =~= old(self).pending@);
        }
        Ok(())
    }

    /// Compiles the right operand of an `or`: it is skipped when the left
    /// operand, which then is the result, is true.
    fn or<P: Fn(&str) -> Option<Number>>(&mut self, _can_assign: bool, parse_number: &P) -> (r:
        Result<(), String>)
        requires
            old(self).inv(),
            old(self).started(),
            forall|text: &str| call_requires(*parse_number, (text,)),
        ensures
            final(self).handled(old(self), r is Ok),
            forall|numbers: spec_fn(Seq<char>) -> Option<Number>| #[trigger]
                describes(numbers, *parse_number) ==> obeys(
                    final(self).state(),
                    r,
                    parse::or(old(self).input(numbers), old(self).state()),
                ),
        decreases old(self).tokens_left(), 6int,
    {
        let line = Self::line_of(&self.prev()?);
        let ghost else_index = self.program@.len() as int;
        let else_jump_addr = self.emit_jump(OpCode::JumpIfFalse, line);
        let ghost else_program = self.program@;
        let ghost end_index = self.program@.len() as int;
        let end_jump_addr = self.emit_jump(OpCode::Jump, line);
        let ghost end_program = self.program@;

        proof {
            lemma_offset_agrees(else_program, self.program@, else_index);
        }
        self.patch_jump(else_jump_addr, Ghost(else_index))?;
        // Pops the value of the left operand.
        self.emit(OpCode::Pop, line);

        self.parse_precedence(&Precedence::Or, parse_number)?;

        proof {
            lemma_offset_agrees(end_program, self.program@, end_index);
        }
        self.patch_jump(end_jump_addr, Ghost(end_index))?;
        proof {
            assert(self.pending@ =~= old(self).pending@);
        }
        Ok(())
    }

    /// Compiles the operand of a unary operator, then the operator.
    fn unary<P: Fn(&str) -> Option<Number>>(&mut self, _can_assign: bool, parse_number: &P) -> (r:
        Result<(), String>)
        requires
            old(self).inv(),
            old(self).started(),
            forall|text: &str| call_requires(*parse_number, (text,)),
        ensures
            final(self).handled(old(self), r is Ok),
            forall|numbers: spec_fn(Seq<char>) -> Option<Number>| #[trigger]
                describes(numbers, *parse_number) ==> obeys(
                    final(self).state(),
                    r,
                    parse::unary(old(self).input(numbers), old(self).state()),
                ),
        decreases old(self).tokens_left(), 6int,
    {
        let prev_token = self.prev()?;
        let operator_type = prev_token.token_type;
        let line = Self::line_of(&prev_token);

        self.parse_precedence(&Precedence::Unary, parse_number)?;

        match operator_type {
            TokenType::Bang => {
                self.emit(OpCode::Not, line);
            },
            TokenType::Minus => {
                self.emit(OpCode::Negate, line);
            },
            _ => {},
        };
        Ok(())
    }

    /// Compiles the right operand of a binary operator, then the operator.
    /// The operand takes in all operators that bind more tightly, so that
    /// operators of one precedence group from the left.
    fn binary<P: Fn(&str) -> Option<Number>>(&mut self, _can_assign: bool, parse_number: &P)
        -> (r: Result<(), String>)
        requires
            old(self).inv(),
            old(self).started(),
            forall|text: &str| call_requires(*parse_number, (text,)),
        ensures
            final(self).handled(old(self), r is Ok),
            forall|numbers: spec_fn(Seq<char>) -> Option<Number>| #[trigger]
                describes(numbers, *parse_number) ==> obeys(
                    final(self).state(),
                    r,
                    parse::binary(old(self).input(numbers), old(self).state()),
                ),
        decreases old(self).tokens_left(), 6int,
    {
        let prev_token = self.prev()?;
        let operator_type = prev_token.token_type;
        let parse_rule = self.get_rule(&operator_type);
        let line = Self::line_of(&prev_token);

        let higher_precedence = parse_rule.precedence.higher();
        self.parse_precedence(&higher_precedence, parse_number)?;

        match operator_type {
            TokenType::Plus => {
                self.emit(OpCode::Add, line);
            },
            TokenType::Minus => {
                self.emit(OpCode::Subtract, line);
            },
            TokenType::Star => {
                self.emit(OpCode::Multiply, line);
            },
            TokenType::Slash => {
                self.emit(OpCode::Divide, line);
            },
            TokenType::BangEqual => {
                self.emit(OpCode::Equal, line);
                self.emit(OpCode::Not, line);
            },
            TokenType::EqualEqual => {
                self.emit(OpCode::Equal, line);
            },
            TokenType::Greater => {
                self.emit(OpCode::Greater, line);
            },
            TokenType::GreaterEqual => {
                self.emit(OpCode::Less, line);
                self.emit(OpCode::Not, line);
            },
            TokenType::Less => {
                self.emit(OpCode::Less, line);
            },
            TokenType::LessEqual => {
                self.emit(OpCode::Greater, line);
                self.emit(OpCode::Not, line);
            },
            _ => {},
        }
        Ok(())
    }

    /// Compiles a reference to the variable that the previous token names.
    fn variable<P: Fn(&str) -> Option<Number>>(&mut self, can_assign: bool, parse_number: &P)
        -> (r: Result<(), String>)
        requires
            old(self).inv(),
            old(self).started(),
            forall|text: &str| call_requires(*parse_number, (text,)),
        ensures
            final(self).handled(old(self), r is Ok),
            forall|numbers: spec_fn(Seq<char>) -> Option<Number>| #[trigger]
                describes(numbers, *parse_number) ==> obeys(
                    final(self).state(),
                    r,
                    parse::variable(old(self).input(numbers), old(self).state(), can_assign),
                ),
        decreases old(self).tokens_left(), 7int,
    {
        let name = self.prev_lexeme_str()?;
        self.named_variable(name, can_assign, parse_number)
    }

    /// Compiles a read of the variable `name`, or an assignment to it if
    /// one may stand here and a `=` follows.  A local is addressed by its
    /// slot, a global by the constant that holds its name.
    fn named_variable<P: Fn(&str) -> Option<Number>>(
        &mut self,
        name: String,
        can_assign: bool,
        parse_number: &P,
    ) -> (r: Result<(), String>)
        requires
            old(self).inv(),
            old(self).started(),
            forall|text: &str| call_requires(*parse_number, (text,)),
        ensures
            final(self).handled(old(self), r is Ok),
            forall|numbers: spec_fn(Seq<char>) -> Option<Number>| #[trigger]
                describes(numbers, *parse_number) ==> obeys(
                    final(self).state(),
                    r,
                    parse::named_variable(old(self).input(numbers), old(self).state(), name@, can_assign),
                ),
        decreases old(self).tokens_left(), 6int,
    {
        let line = Self::line_of(&self.prev()?);

        let (get_op, set_op, operand) = match self.resolve_local(&name)? {
            Some(local_pos) => (OpCode::GetLocal, OpCode::SetLocal, local_pos),
            None => {
                let index = self.identifier_constant(name)?;
                (OpCode::GetGlobal, OpCode::SetGlobal, index)
            },
        };

        if can_assign && self.matches(&TokenType::Equal) {
            self.expression(parse_number)?;
            self.emit_operand(set_op, operand, line);
        } else {
            self.emit_operand(get_op, operand, line);
        }
        Ok(())
    }

    /// Compiles a number: the constant that `parse_number` makes of its
    /// text.
    fn number<P: Fn(&str) -> Option<Number>>(&mut self, _can_assign: bool, parse_number: &P)
        -> (r: Result<(), String>)
        requires
            old(self).inv(),
            old(self).started(),
            forall|text: &str| call_requires(*parse_number, (text,)),
        ensures
            final(self).handled(old(self), r is Ok),
            forall|numbers: spec_fn(Seq<char>) -> Option<Number>| #[trigger]
                describes(numbers, *parse_number) ==> obeys(
                    final(self).state(),
                    r,
                    parse::number(old(self).input(numbers), old(self).state()),
                ),
    {
        let token = self.prev()?;
        let lexeme = self.lexeme_str(&token);
        let num = match parse_number(lexeme.as_str()) {
            Some(num) => num,
            None => {
                return Err(
                    String::from_str("Failed to parse '").concat(lexeme.as_str()).concat(
                        "' as number",
                    ),
                );
            },
        };
        self.emit_constant(Value::Number(num), Self::line_of(&token))?;
        Ok(())
    }

    /// Compiles a string: the constant that holds the text between its
    /// quotes.
    fn string(&mut self, _can_assign: bool) -> (r: Result<(), String>)
        requires
            old(self).inv(),
            old(self).started(),
            old(self).prev_calls(ParseFn::String),
        ensures
            final(self).handled(old(self), r is Ok),
            obeys(final(self).state(), r, parse::string(old(self).bytes(), old(self).state())),
    {
        let token = self.prev()?;
        let source_len = self.scanner.len();
        let inner = Lexeme { start: token.lexeme.start + 1, len: token.lexeme.len - 2 };
        let str_copy = self.lexeme_text(&inner);
        self.emit_constant(Value::String(str_copy), Self::line_of(&token))?;
        Ok(())
    }

    /// Compiles `nil`, `true` or `false`.
    fn literal(&mut self, _can_assign: bool) -> (r: Result<(), String>)
        requires
            old(self).inv(),
            old(self).started(),
        ensures
            final(self).handled(old(self), r is Ok),
            obeys(final(self).state(), r, parse::literal(old(self).state())),
    {
        let token = self.prev()?;
        match token.token_type {
            TokenType::Nil => {
                self.emit(OpCode::Nil, Self::line_of(&token));
            },
            TokenType::True => {
                self.emit(OpCode::True, Self::line_of(&token));
            },
            TokenType::False => {
                self.emit(OpCode::False, Self::line_of(&token));
            },
            _ => {},
        };
        Ok(())
    }

    /// Does what the rule of the previous token names.
    fn call<P: Fn(&str) -> Option<Number>>(
        &mut self,
        parse_fn: ParseFn,
        can_assign: bool,
        parse_number: &P,
    ) -> (r: Result<(), String>)
        requires
            old(self).inv(),
            old(self).started(),
            forall|text: &str| call_requires(*parse_number, (text,)),
            old(self).prev_calls(parse_fn),
        ensures
            final(self).handled(old(self), r is Ok),
            forall|numbers: spec_fn(Seq<char>) -> Option<Number>| #[trigger]
                describes(numbers, *parse_number) ==> obeys(
                    final(self).state(),
                    r,
                    parse::call(old(self).input(numbers), old(self).state(), parse_fn, can_assign),
                ),
        decreases old(self).tokens_left(), 8int,
    {
        match parse_fn {
            ParseFn::Grouping => self.grouping(can_assign, parse_number),
            ParseFn::Unary => self.unary(can_assign, parse_number),
            ParseFn::Binary => self.binary(can_assign, parse_number),
            ParseFn::Variable => self.variable(can_assign, parse_number),
            ParseFn::String => self.string(can_assign),
            ParseFn::Number => self.number(can_assign, parse_number),
            ParseFn::Literal => self.literal(can_assign),
            ParseFn::And => self.and(can_assign, parse_number),
            ParseFn::Or => self.or(can_assign, parse_number),
        }
    }

    /// Compiles an expression whose operators all bind at least as tightly
    /// as `precedence`: the operand that the next token starts, then every
    /// operator that binds tightly enough with its right operand.  An
    /// assignment may stand here if `precedence` is no tighter than that of
    /// assignment; a `=` left over then has no target.
    fn parse_precedence<P: Fn(&str) -> Option<Number>>(
        &mut self,
        precedence: &Precedence,
        parse_number: &P,
    ) -> (r: Result<(), String>)
        requires
            old(self).inv(),
            old(self).started(),
            forall|text: &str| call_requires(*parse_number, (text,)),
        ensures
            final(self).parsed(old(self), r is Ok),
            final(self).handled(old(self), r is Ok),
            forall|numbers: spec_fn(Seq<char>) -> Option<Number>| #[trigger]
                describes(numbers, *parse_number) ==> obeys(
                    final(self).state(),
                    r,
                    parse::parse_precedence(old(self).input(numbers), old(self).state(), precedence.rank()),
                ),
        decreases old(self).tokens_left(), 4int,
    {
        self.advance();

        let can_assign = Precedence::Assignment.is_greater_than_or_eq(precedence);
        match self.prev_rule()?.prefix {
            Some(parse_fn) => self.call(parse_fn, can_assign, parse_number)?,
            None => {
                return Err(String::from_str("Expected expression"));
            },
        }

        loop
            invariant
                self.parsed(old(self), true),
                self.handled(old(self), true),
                forall|text: &str| call_requires(*parse_number, (text,)),
                can_assign == (precedence.rank() <= Precedence::Assignment.rank()),
                forall|numbers: spec_fn(Seq<char>) -> Option<Number>| #[trigger]
                    describes(numbers, *parse_number) ==> parse::after_operators(
                        self.bytes(),
                        parse::infix_loop(
                            self.input(numbers),
                            self.state(),
                            precedence.rank(),
                            can_assign,
                        ),
                        can_assign,
                    ) == parse::parse_precedence(
                        old(self).input(numbers),
                        old(self).state(),
                        precedence.rank(),
                    ),
            ensures
                forall|numbers: spec_fn(Seq<char>) -> Option<Number>| #[trigger]
                    describes(numbers, *parse_number) ==> parse::after_operators(
                        self.bytes(),
                        parse::go(self.state()),
                        can_assign,
                    ) == parse::parse_precedence(
                        old(self).input(numbers),
                        old(self).state(),
                        precedence.rank(),
                    ),
            decreases self.tokens_left(),
        {
            let curr_rule = self.current_rule()?;
            if precedence.is_greater_than(&curr_rule.precedence) {
                break;
            }
            self.advance();

            match self.prev_rule()?.infix {
                Some(parse_fn) => self.call(parse_fn, can_assign, parse_number)?,
                None => {
                    return Err(String::from_str("Expected expression"));
                },
            }
        }

        if can_assign && self.matches(&TokenType::Equal) {
            return Err(String::from_str("Invalid assignment target"));
        }
        Ok(())
    }
}

} // verus!
