//! What the compiler does, as mathematics: the state of a compilation and
//! the function that each step of the compiler is on it.
//!
//! A step that can give up returns a [`Step`]: the state that it reached and
//! the message with which it gave up, if it did.  The steps that parse call
//! each other as the grammar nests.  They end because every nesting takes a
//! token: the measure of each is [`tokens_left`], then a rank that falls
//! from the steps that open a construct to the steps inside it.  Where a
//! step goes on from the state that another parsing step reached, it does
//! so only if that state has no more tokens left than it started with, and
//! fewer where it repeats itself.  No parsing step ever gives a token back
//! ([`lemma_declaration`], [`lemma_expression`]), so that condition always
//! holds; it stands in the definitions because they have to be seen to end
//! before anything can be shown of them.

use vstd::prelude::*;
use vstd::utf8::*;
use crate::instruction::{OpCode, WriteError};
use crate::rules::{rule_for, ParseFn, Precedence};
use crate::scanner::{lemma_scan, line_at, scan, Lexeme, Token, TokenType};
use crate::value::{Number, ValueView};

verus! {

/// A local variable.
pub struct LocalView {
    pub name: Seq<char>,
    pub depth: i32,
    pub initialized: bool,
}

/// An error found while compiling.
pub enum ErrorView {
    Parse { msg: Seq<char>, lexeme: Seq<char>, line: usize },
    Scan { line: usize, message: Seq<char> },
}

/// The state of a compilation.
pub struct Parse {
    /// The offset in the source where the next scan resumes.
    pub position: int,
    /// The token that comes next.
    pub current: Option<Token>,
    /// The token taken last.
    pub prev: Option<Token>,
    /// The code written so far.
    pub code: Seq<u8>,
    /// The source line of each byte of the code.
    pub lines: Seq<i32>,
    /// The constants added so far.
    pub constants: Seq<ValueView>,
    /// How many scopes are open.
    pub scope_depth: i32,
    /// The locals that are alive; the place of a local is its stack slot.
    pub locals: Seq<LocalView>,
    /// The errors recorded so far.
    pub errors: Seq<ErrorView>,
    /// Whether an error was recorded since the last statement started well.
    pub panic_mode: bool,
}

/// What a step of the compilation leads to: the new state, and the message
/// with which the step gave up, if it did.
pub struct Step {
    pub state: Parse,
    pub abort: Option<Seq<char>>,
}

/// What the compiler is given: the bytes of the source, and the number that
/// each text of a number token stands for.
pub struct Input {
    pub bytes: Seq<u8>,
    pub numbers: spec_fn(Seq<char>) -> Option<Number>,
}

/// The step that goes on in `state`.
pub open spec fn go(state: Parse) -> Step {
    Step { state, abort: None }
}

/// The step that gives up in `state`.
pub open spec fn stop(state: Parse, message: Seq<char>) -> Step {
    Step { state, abort: Some(message) }
}

/// The state before the first token is scanned.
pub open spec fn initial() -> Parse {
    Parse {
        position: 0,
        current: None,
        prev: None,
        code: Seq::empty(),
        lines: Seq::empty(),
        constants: Seq::empty(),
        scope_depth: 0,
        locals: Seq::empty(),
        errors: Seq::empty(),
        panic_mode: false,
    }
}

/// The position lies in the source, and an `Eof` is only at hand at its
/// end.
pub open spec fn well_placed(bytes: Seq<u8>, s: Parse) -> bool {
    &&& 0 <= s.position <= bytes.len()
    &&& s.current matches Some(token) ==> (token.token_type == TokenType::Eof ==> s.position
        == bytes.len())
}

/// The number of source bytes not yet scanned, and one more while the
/// current token is not `Eof`.
pub open spec fn tokens_left(bytes: Seq<u8>, s: Parse) -> nat {
    let unread = (bytes.len() - s.position) as nat;
    match s.current {
        Some(token) => if token.token_type != TokenType::Eof {
            unread + 1
        } else {
            unread
        },
        None => unread,
    }
}

/// Whether state `to` has no more tokens left than state `from`.
pub open spec fn no_token_back(bytes: Seq<u8>, from: Parse, to: Parse) -> bool {
    tokens_left(bytes, to) <= tokens_left(bytes, from)
}

/// Whether state `to` has fewer tokens left than state `from`.
pub open spec fn token_taken(bytes: Seq<u8>, from: Parse, to: Parse) -> bool {
    tokens_left(bytes, to) < tokens_left(bytes, from)
}

/// The line of a token as the code records it; lines beyond the largest
/// `i32` are recorded as that.
pub open spec fn line_of(token: Token) -> i32 {
    if token.line > i32::MAX {
        i32::MAX
    } else {
        token.line as i32
    }
}

/// The text of a lexeme.
pub open spec fn lexeme_chars(bytes: Seq<u8>, lexeme: Lexeme) -> Seq<char> {
    decode_utf8(bytes.subrange(lexeme.start as int, lexeme.start + lexeme.len))
}

/// Records an error, unless an earlier error of the same statement already
/// was.
pub open spec fn record(s: Parse, error: ErrorView) -> Parse {
    if s.panic_mode {
        s
    } else {
        Parse { errors: s.errors.push(error), panic_mode: true, ..s }
    }
}

/// Records a parse error at the current token.
pub open spec fn error_here(bytes: Seq<u8>, s: Parse, msg: Seq<char>) -> Parse {
    match s.current {
        Some(token) => record(
            s,
            ErrorView::Parse { msg, lexeme: lexeme_chars(bytes, token.lexeme), line: token.line },
        ),
        None => s,
    }
}

/// Scans up to the next token, recording the failed scans on the way.
pub open spec fn scan_on(bytes: Seq<u8>, s: Parse) -> Parse
    decreases bytes.len() - s.position,
    when 0 <= s.position <= bytes.len()
{
    let scanned = scan(bytes, s.position);
    proof {
        lemma_scan(bytes, s.position);
    }
    match scanned.token {
        Ok(token) => Parse { current: Some(token), position: scanned.end, ..s },
        Err(message) => scan_on(
            bytes,
            record(
                Parse { position: scanned.end, ..s },
                ErrorView::Scan { line: line_at(bytes, scanned.end), message },
            ),
        ),
    }
}

/// Takes the current token and scans the next one.
pub open spec fn advance(bytes: Seq<u8>, s: Parse) -> Parse {
    scan_on(bytes, Parse { prev: s.current, ..s })
}

/// Whether the current token is of the given kind.
pub open spec fn check(s: Parse, token_type: TokenType) -> bool {
    s.current matches Some(token) && token.token_type == token_type
}

/// Whether the token taken last is of the given kind.
pub open spec fn check_prev(s: Parse, token_type: TokenType) -> bool {
    s.prev matches Some(token) && token.token_type == token_type
}

/// Takes the current token if it is of the given kind.
pub open spec fn matches(bytes: Seq<u8>, s: Parse, token_type: TokenType) -> Parse {
    if check(s, token_type) {
        advance(bytes, s)
    } else {
        s
    }
}

/// Takes the current token if it is of the given kind, and records a parse
/// error with the given message if it is not.
pub open spec fn consume(bytes: Seq<u8>, s: Parse, token_type: TokenType, msg: Seq<char>) -> Parse {
    if check(s, token_type) {
        advance(bytes, s)
    } else {
        error_here(bytes, s, msg)
    }
}

/// Whether a statement starts with a token of this kind.
pub open spec fn starts_statement(token_type: TokenType) -> bool {
    ||| token_type == TokenType::Class
    ||| token_type == TokenType::Fun
    ||| token_type == TokenType::Var
    ||| token_type == TokenType::For
    ||| token_type == TokenType::If
    ||| token_type == TokenType::While
    ||| token_type == TokenType::Print
    ||| token_type == TokenType::Return
}

/// Skips tokens up to the start of the next statement: behind a semicolon,
/// before a keyword that starts a statement, or at the end.
pub open spec fn skip_to_statement(bytes: Seq<u8>, s: Parse) -> Parse
    decreases tokens_left(bytes, s),
    when well_placed(bytes, s)
{
    if check(s, TokenType::Eof) || check_prev(s, TokenType::Semicolon) {
        s
    } else {
        match s.current {
            Some(token) => if starts_statement(token.token_type) {
                s
            } else {
                proof {
                    lemma_advance(bytes, s);
                }
                skip_to_statement(bytes, advance(bytes, s))
            },
            None => s,
        }
    }
}

/// Leaves panic mode and skips to the start of the next statement.
pub open spec fn synchronize(bytes: Seq<u8>, s: Parse) -> Parse {
    skip_to_statement(bytes, Parse { panic_mode: false, ..s })
}

/// Scanning on changes nothing but the position, the current token and the
/// errors; it never moves back, and it ends with a token at hand.
pub proof fn lemma_scan_on(bytes: Seq<u8>, s: Parse)
    requires
        0 <= s.position <= bytes.len(),
    ensures
        well_placed(bytes, scan_on(bytes, s)),
        scan_on(bytes, s).current is Some,
        s.position <= scan_on(bytes, s).position,
        !check(scan_on(bytes, s), TokenType::Eof) ==> s.position < scan_on(bytes, s).position,
        scan_on(bytes, s).prev == s.prev,
        scan_on(bytes, s).code == s.code,
        scan_on(bytes, s).lines == s.lines,
        scan_on(bytes, s).constants == s.constants,
        scan_on(bytes, s).scope_depth == s.scope_depth,
        scan_on(bytes, s).locals == s.locals,
        scan_on(bytes, s).errors.len() >= s.errors.len(),
        s.panic_mode ==> scan_on(bytes, s).errors == s.errors,
        s.panic_mode ==> scan_on(bytes, s).panic_mode,
    decreases bytes.len() - s.position,
{
    let scanned = scan(bytes, s.position);
    lemma_scan(bytes, s.position);
    match scanned.token {
        Ok(token) => {},
        Err(message) => {
            lemma_scan_on(
                bytes,
                record(
                    Parse { position: scanned.end, ..s },
                    ErrorView::Scan { line: line_at(bytes, scanned.end), message },
                ),
            );
        },
    }
}

/// Taking a token keeps the state well placed and gives no token back; it
/// takes one unless the current token is `Eof`.
pub proof fn lemma_advance(bytes: Seq<u8>, s: Parse)
    requires
        well_placed(bytes, s),
    ensures
        well_placed(bytes, advance(bytes, s)),
        advance(bytes, s).current is Some,
        advance(bytes, s).prev == s.current,
        tokens_left(bytes, advance(bytes, s)) <= tokens_left(bytes, s),
        s.current is Some && !check(s, TokenType::Eof) ==> tokens_left(bytes, advance(bytes, s))
            < tokens_left(bytes, s),
        advance(bytes, s).code == s.code,
        advance(bytes, s).lines == s.lines,
        advance(bytes, s).constants == s.constants,
        advance(bytes, s).scope_depth == s.scope_depth,
        advance(bytes, s).locals == s.locals,
{
    lemma_scan_on(bytes, Parse { prev: s.current, ..s });
}

/// Taking a token of a given kind, if it is there, keeps the state well
/// placed and gives no token back.
pub proof fn lemma_matches(bytes: Seq<u8>, s: Parse, token_type: TokenType)
    requires
        well_placed(bytes, s),
    ensures
        well_placed(bytes, matches(bytes, s, token_type)),
        tokens_left(bytes, matches(bytes, s, token_type)) <= tokens_left(bytes, s),
        check(s, token_type) && token_type != TokenType::Eof ==> tokens_left(
            bytes,
            matches(bytes, s, token_type),
        ) < tokens_left(bytes, s),
        s.current is Some ==> matches(bytes, s, token_type).current is Some,
{
    lemma_advance(bytes, s);
}

/// Taking a token of a given kind, or recording that it is missing, keeps
/// the state well placed and gives no token back.
pub proof fn lemma_consume(bytes: Seq<u8>, s: Parse, token_type: TokenType, msg: Seq<char>)
    requires
        well_placed(bytes, s),
    ensures
        well_placed(bytes, consume(bytes, s, token_type, msg)),
        tokens_left(bytes, consume(bytes, s, token_type, msg)) <= tokens_left(bytes, s),
        s.current is Some ==> consume(bytes, s, token_type, msg).current is Some,
{
    lemma_advance(bytes, s);
}

/// The code with `bytes` behind it, all from source line `line`.
pub open spec fn write(s: Parse, bytes: Seq<u8>, line: i32) -> Parse {
    Parse { code: s.code + bytes, lines: s.lines + Seq::new(bytes.len(), |i: int| line), ..s }
}

/// Writes an instruction without operands.
pub open spec fn emit(s: Parse, op_code: OpCode, line: i32) -> Parse {
    write(s, seq![op_code.spec_byte()], line)
}

/// Writes an instruction with one operand.
pub open spec fn emit_operand(s: Parse, op_code: OpCode, operand: u8, line: i32) -> Parse {
    write(s, seq![op_code.spec_byte(), operand], line)
}

/// Writes a forward jump whose operands are still to be patched.
pub open spec fn emit_jump(s: Parse, op_code: OpCode, line: i32) -> Parse {
    write(s, seq![op_code.spec_byte(), 0xffu8, 0xffu8], line)
}

/// Adds a constant and writes the instruction that loads it; gives up when
/// the pool is full.
pub open spec fn emit_constant(s: Parse, value: ValueView, line: i32) -> Step {
    if s.constants.len() < 256 {
        go(
            write(
                Parse { constants: s.constants.push(value), ..s },
                seq![OpCode::Constant.spec_byte(), s.constants.len() as u8],
                line,
            ),
        )
    } else {
        stop(s, WriteError::TooManyConstants.spec_message())
    }
}

/// Adds the name of a global to the constants; the index of the constant
/// comes with the step.  Gives up when the pool is full.
pub open spec fn identifier_constant(s: Parse, name: Seq<char>) -> (Step, u8) {
    if s.constants.len() < 256 {
        (
            go(Parse { constants: s.constants.push(ValueView::String(name)), ..s }),
            s.constants.len() as u8,
        )
    } else {
        (stop(s, WriteError::TooManyConstants.spec_message()), 0u8)
    }
}

/// Makes the jump whose opcode is at `start` land at the end of the code;
/// gives up when that is more than 65535 bytes behind the jump.
pub open spec fn patch_jump(s: Parse, start: int) -> Step {
    if start + 3 > s.code.len() {
        stop(s, WriteError::JumpOutOfRange(start as usize).spec_message())
    } else {
        let distance = s.code.len() - (start + 3);
        if distance > 65535 {
            stop(s, WriteError::JumpTooLong(distance as usize).spec_message())
        } else {
            go(
                Parse {
                    code: s.code.update(start + 1, (distance / 256) as u8).update(
                        start + 2,
                        (distance % 256) as u8,
                    ),
                    ..s
                },
            )
        }
    }
}

/// Writes a jump back to `loop_start`; gives up when that is more than
/// 65535 bytes before the end of the jump.
pub open spec fn emit_loop(s: Parse, loop_start: int, line: i32) -> Step {
    if loop_start > s.code.len() {
        stop(s, WriteError::LoopStartOutOfRange(loop_start as usize).spec_message())
    } else {
        let distance = s.code.len() + 3 - loop_start;
        if distance > 65535 {
            stop(s, WriteError::LoopTooBig((s.code.len() - loop_start) as usize).spec_message())
        } else {
            go(
                write(
                    s,
                    seq![OpCode::Loop.spec_byte(), (distance / 256) as u8, (distance % 256) as u8],
                    line,
                ),
            )
        }
    }
}

/// Opens a scope.
pub open spec fn begin_scope(s: Parse) -> Step {
    if s.scope_depth == i32::MAX {
        stop(s, "Too many nested scopes"@)
    } else {
        go(Parse { scope_depth: (s.scope_depth + 1) as i32, ..s })
    }
}

/// Drops the locals at the end of the list that were declared deeper than
/// the scope depth, and writes a `Pop` for each.
pub open spec fn pop_locals(s: Parse) -> Step
    decreases s.locals.len(),
{
    if s.locals.len() == 0 || s.locals.last().depth <= s.scope_depth {
        go(s)
    } else {
        match s.prev {
            Some(token) => pop_locals(
                Parse { locals: s.locals.drop_last(), ..emit(s, OpCode::Pop, line_of(token)) },
            ),
            None => stop(s, "prev token is null"@),
        }
    }
}

/// Closes the innermost scope.
pub open spec fn end_scope(s: Parse) -> Step {
    pop_locals(Parse { scope_depth: (s.scope_depth - 1) as i32, ..s })
}

/// Of the locals `kept + gone`, where those of `gone` were declared deeper
/// than `depth` and the last of `kept` was not, exactly `kept` stay when a
/// scope closes to `depth`.
pub proof fn lemma_locals_kept(kept: Seq<LocalView>, gone: Seq<LocalView>, depth: int)
    requires
        forall|k: int| 0 <= k < gone.len() ==> (#[trigger] gone[k]).depth > depth,
        kept.len() > 0 ==> kept.last().depth <= depth,
    ensures
        locals_kept(kept + gone, depth) == kept.len(),
    decreases gone.len(),
{
    if gone.len() == 0 {
        assert(kept + gone =~= kept);
    } else {
        assert((kept + gone).last() == gone.last());
        assert((kept + gone).drop_last() =~= kept + gone.drop_last());
        lemma_locals_kept(kept, gone.drop_last(), depth);
    }
}

/// When the scope of depth `s.scope_depth` closes, the locals that it
/// declared leave the list and the others stay, the depth falls by one, and
/// exactly one `Pop` is written for each local that leaves, and nothing
/// else.
pub proof fn lemma_end_scope_pops_its_locals(
    s: Parse,
    kept: Seq<LocalView>,
    gone: Seq<LocalView>,
)
    requires
        s.scope_depth >= 1,
        s.locals == kept + gone,
        forall|k: int| 0 <= k < gone.len() ==> (#[trigger] gone[k]).depth >= s.scope_depth,
        forall|k: int| 0 <= k < kept.len() ==> (#[trigger] kept[k]).depth < s.scope_depth,
        s.prev is Some,
    ensures
        end_scope(s).abort is None,
        end_scope(s).state.scope_depth == s.scope_depth - 1,
        end_scope(s).state.locals == kept,
        end_scope(s).state.code == s.code + Seq::new(
            gone.len(),
            |i: int| OpCode::Pop.spec_byte(),
        ),
        end_scope(s).state.code.len() == s.code.len() + gone.len(),
        end_scope(s).state.constants == s.constants,
{
    let closing = Parse { scope_depth: (s.scope_depth - 1) as i32, ..s };
    lemma_locals_kept(kept, gone, closing.scope_depth as int);
    lemma_pop_locals_succeeds(closing);
    lemma_scope_exit_pops_its_locals(closing);
    assert((kept + gone).take(kept.len() as int) =~= kept);
}

/// Closing a scope does not give up while a token has been taken.
pub proof fn lemma_pop_locals_succeeds(s: Parse)
    requires
        s.prev is Some,
    ensures
        pop_locals(s).abort is None,
    decreases s.locals.len(),
{
    if !(s.locals.len() == 0 || s.locals.last().depth <= s.scope_depth) {
        lemma_pop_locals_succeeds(
            Parse {
                locals: s.locals.drop_last(),
                ..emit(s, OpCode::Pop, line_of(s.prev->0))
            },
        );
    }
}

/// Declares a local in the innermost scope; gives up when 256 locals are
/// alive.
pub open spec fn add_local(s: Parse, name: Seq<char>) -> Step {
    if s.locals.len() >= 256 {
        stop(s, "Too many locals"@)
    } else {
        go(
            Parse {
                locals: s.locals.push(
                    LocalView { name, depth: s.scope_depth, initialized: false },
                ),
                ..s
            },
        )
    }
}

/// The slot that a name resolves to: that of the local declared last among
/// the locals with this name.
pub open spec fn resolved_slot(locals: Seq<LocalView>, name: Seq<char>) -> Option<int>
    decreases locals.len(),
{
    if locals.len() == 0 {
        None
    } else if locals.last().name == name {
        Some(locals.len() - 1)
    } else {
        resolved_slot(locals.drop_last(), name)
    }
}

/// A name resolves to the local declared last among those that bear it, and
/// to no local exactly if none bears it.
pub proof fn lemma_last_declared_wins(locals: Seq<LocalView>, name: Seq<char>)
    ensures
        match resolved_slot(locals, name) {
            Some(slot) => {
                &&& 0 <= slot < locals.len()
                &&& locals[slot].name == name
                &&& forall|k: int| slot < k < locals.len() ==> (#[trigger] locals[k]).name != name
            },
            None => forall|k: int| 0 <= k < locals.len() ==> (#[trigger] locals[k]).name != name,
        },
    decreases locals.len(),
{
    if locals.len() > 0 && locals.last().name != name {
        lemma_last_declared_wins(locals.drop_last(), name);
        assert forall|k: int| 0 <= k < locals.len() - 1 implies locals[k]
            == locals.drop_last()[k] by {}
    }
}

/// Declares the variable whose name is the token taken last, if it is a
/// local.
pub open spec fn declare_variable(bytes: Seq<u8>, s: Parse) -> Step {
    if s.scope_depth == 0 {
        go(s)
    } else {
        match s.prev {
            Some(token) => add_local(s, lexeme_chars(bytes, token.lexeme)),
            None => stop(s, "No prev token. Can't get prev lexeme"@),
        }
    }
}

/// Makes the variable just declared usable: a local is marked initialized,
/// a global is defined from the value on the stack.
pub open spec fn define_variable(s: Parse, index: u8) -> Step {
    if s.scope_depth > 0 {
        if s.locals.len() > 0 {
            go(
                Parse {
                    locals: s.locals.update(
                        s.locals.len() - 1,
                        LocalView { initialized: true, ..s.locals.last() },
                    ),
                    ..s
                },
            )
        } else {
            go(s)
        }
    } else {
        match s.prev {
            Some(token) => go(emit_operand(s, OpCode::DefineGlobal, index, line_of(token))),
            None => stop(s, "prev token is null"@),
        }
    }
}

/// Takes the name of a variable and declares it.  For a global, the index of
/// the constant that holds its name comes with the step.
pub open spec fn parse_variable(bytes: Seq<u8>, s: Parse, msg: Seq<char>) -> (Step, u8) {
    let declared = declare_variable(bytes, consume(bytes, s, TokenType::Identifier, msg));
    if declared.abort is Some || declared.state.scope_depth > 0 {
        (declared, 0u8)
    } else {
        match declared.state.prev {
            Some(token) => identifier_constant(
                declared.state,
                lexeme_chars(bytes, token.lexeme),
            ),
            None => (stop(declared.state, "No prev token. Can't get prev lexeme"@), 0u8),
        }
    }
}

/// How many locals stay when a scope closes to depth `depth`: all but those
/// at the end of the list that were declared deeper.
pub open spec fn locals_kept(locals: Seq<LocalView>, depth: int) -> nat
    decreases locals.len(),
{
    if locals.len() > 0 && locals.last().depth > depth {
        locals_kept(locals.drop_last(), depth)
    } else {
        locals.len()
    }
}

/// When a scope closes, the locals that it declared leave the list, and
/// exactly one `Pop` is written for each of them: the slots that they held
/// at run time are given up, the slots below stay.
pub proof fn lemma_scope_exit_pops_its_locals(s: Parse)
    ensures
        pop_locals(s).abort is None ==> {
            let kept = locals_kept(s.locals, s.scope_depth as int);
            &&& kept <= s.locals.len()
            &&& pop_locals(s).state.locals == s.locals.take(kept as int)
            &&& pop_locals(s).state.code == s.code + Seq::new(
                (s.locals.len() - kept) as nat,
                |i: int| OpCode::Pop.spec_byte(),
            )
            &&& pop_locals(s).state.constants == s.constants
            &&& pop_locals(s).state.scope_depth == s.scope_depth
        },
    decreases s.locals.len(),
{
    if s.locals.len() == 0 || s.locals.last().depth <= s.scope_depth {
        assert(s.locals.take(s.locals.len() as int) =~= s.locals);
        assert(s.code + Seq::new(0, |i: int| OpCode::Pop.spec_byte()) =~= s.code);
    } else {
        match s.prev {
            Some(token) => {
                let next = Parse {
                    locals: s.locals.drop_last(),
                    ..emit(s, OpCode::Pop, line_of(token))
                };
                lemma_scope_exit_pops_its_locals(next);
                if pop_locals(s).abort is None {
                    let kept = locals_kept(s.locals, s.scope_depth as int);
                    assert(next.locals.take(kept as int) =~= s.locals.take(kept as int));
                    assert(next.code + Seq::new(
                        (next.locals.len() - kept) as nat,
                        |i: int| OpCode::Pop.spec_byte(),
                    ) =~= s.code + Seq::new(
                        (s.locals.len() - kept) as nat,
                        |i: int| OpCode::Pop.spec_byte(),
                    ));
                }
            },
            None => {},
        }
    }
}

/// Compiles a declaration: a variable declaration or a statement.  After an
/// error it skips to the start of the next statement.
pub open spec fn declaration(i: Input, s: Parse) -> Step
    decreases tokens_left(i.bytes, s), 9int,
    when well_placed(i.bytes, s)
{
    proof {
        lemma_matches(i.bytes, s, TokenType::Var);
    }
    let step = if check(s, TokenType::Var) {
        var_declaration(i, advance(i.bytes, s))
    } else {
        statement(i, s)
    };
    if step.abort is None && step.state.panic_mode {
        go(synchronize(i.bytes, step.state))
    } else {
        step
    }
}

/// Compiles a variable declaration, behind its `var`: the name, the
/// initializer or `nil`, the semicolon.
pub open spec fn var_declaration(i: Input, s: Parse) -> Step {
    let named = parse_variable(i.bytes, s, "Expected variable name"@);
    if named.0.abort is Some {
        named.0
    } else {
        let value = if check(named.0.state, TokenType::Equal) {
            expression(i, advance(i.bytes, named.0.state))
        } else {
            match named.0.state.prev {
                Some(token) => go(emit(named.0.state, OpCode::Nil, line_of(token))),
                None => stop(named.0.state, "prev token is null"@),
            }
        };
        if value.abort is Some {
            value
        } else {
            define_variable(
                consume(
                    i.bytes,
                    value.state,
                    TokenType::Semicolon,
                    "Expected ';' after variable declaration."@,
                ),
                named.1,
            )
        }
    }
}

/// Compiles a statement.
pub open spec fn statement(i: Input, s: Parse) -> Step
    decreases tokens_left(i.bytes, s), 8int,
    when well_placed(i.bytes, s)
{
    proof {
        lemma_advance(i.bytes, s);
    }
    if check(s, TokenType::Print) {
        print_statement(i, advance(i.bytes, s))
    } else if check(s, TokenType::LeftBrace) {
        let opened = begin_scope(advance(i.bytes, s));
        if opened.abort is Some {
            opened
        } else {
            let body = block(i, opened.state);
            if body.abort is Some {
                body
            } else {
                end_scope(body.state)
            }
        }
    } else if check(s, TokenType::If) {
        if_statement(i, advance(i.bytes, s))
    } else if check(s, TokenType::While) {
        while_statement(i, advance(i.bytes, s))
    } else {
        expression_statement(i, s)
    }
}

/// Compiles an `if` statement, behind its `if`.
pub open spec fn if_statement(i: Input, s: Parse) -> Step
    decreases tokens_left(i.bytes, s), 11int,
    when well_placed(i.bytes, s)
{
    proof {
        lemma_consume(i.bytes, s, TokenType::LeftParen, "Expected '(' after 'if'."@);
    }
    let condition = expression(
        i,
        consume(i.bytes, s, TokenType::LeftParen, "Expected '(' after 'if'."@),
    );
    if condition.abort is Some {
        condition
    } else {
        let closed = consume(
            i.bytes,
            condition.state,
            TokenType::RightParen,
            "Expected ')' after condition"@,
        );
        match closed.prev {
            None => stop(closed, "prev token is null"@),
            Some(token) => {
                let line = line_of(token);
                let if_jump = closed.code.len() as int;
                let test = emit(emit_jump(closed, OpCode::JumpIfFalse, line), OpCode::Pop, line);
                if !no_token_back(i.bytes, s, test) {
                    go(test)
                } else {
                    let first = statement(i, test);
                    if first.abort is Some {
                        first
                    } else {
                        let else_jump = first.state.code.len() as int;
                        let skipped = patch_jump(
                            emit_jump(first.state, OpCode::Jump, line),
                            if_jump,
                        );
                        if skipped.abort is Some {
                            skipped
                        } else {
                            let before_else = emit(skipped.state, OpCode::Pop, line);
                            let second = if !check(before_else, TokenType::Else) {
                                go(before_else)
                            } else if !no_token_back(
                                i.bytes,
                                s,
                                advance(i.bytes, before_else),
                            ) {
                                go(before_else)
                            } else {
                                statement(i, advance(i.bytes, before_else))
                            };
                            if second.abort is Some {
                                second
                            } else {
                                patch_jump(second.state, else_jump)
                            }
                        }
                    }
                }
            },
        }
    }
}

/// Compiles a `while` statement, behind its `while`.
pub open spec fn while_statement(i: Input, s: Parse) -> Step
    decreases tokens_left(i.bytes, s), 11int,
    when well_placed(i.bytes, s)
{
    proof {
        lemma_consume(i.bytes, s, TokenType::LeftParen, "Expected '(' after 'while'."@);
    }
    let loop_start = s.code.len() as int;
    let condition = expression(
        i,
        consume(i.bytes, s, TokenType::LeftParen, "Expected '(' after 'while'."@),
    );
    if condition.abort is Some {
        condition
    } else {
        let closed = consume(
            i.bytes,
            condition.state,
            TokenType::RightParen,
            "Expected ')' after condition"@,
        );
        match closed.prev {
            None => stop(closed, "prev token is null"@),
            Some(token) => {
                let line = line_of(token);
                let exit_jump = closed.code.len() as int;
                let test = emit(emit_jump(closed, OpCode::JumpIfFalse, line), OpCode::Pop, line);
                if !no_token_back(i.bytes, s, test) {
                    go(test)
                } else {
                    let body = statement(i, test);
                    if body.abort is Some {
                        body
                    } else {
                        let back = emit_loop(body.state, loop_start, line);
                        if back.abort is Some {
                            back
                        } else {
                            let left = patch_jump(back.state, exit_jump);
                            if left.abort is Some {
                                left
                            } else {
                                go(emit(left.state, OpCode::Pop, line))
                            }
                        }
                    }
                }
            },
        }
    }
}

/// Writes `op_code` with the line of the token taken last.
pub open spec fn emit_at_prev(s: Parse, op_code: OpCode) -> Step {
    match s.prev {
        Some(token) => go(emit(s, op_code, line_of(token))),
        None => stop(s, "prev token is null"@),
    }
}

/// Compiles a `print` statement, behind its `print`.
pub open spec fn print_statement(i: Input, s: Parse) -> Step {
    let value = expression(i, s);
    if value.abort is Some {
        value
    } else {
        emit_at_prev(
            consume(i.bytes, value.state, TokenType::Semicolon, "Expected ';' after value."@),
            OpCode::Print,
        )
    }
}

/// Compiles an expression statement: the value of the expression is
/// dropped.
pub open spec fn expression_statement(i: Input, s: Parse) -> Step {
    let value = expression(i, s);
    if value.abort is Some {
        value
    } else {
        emit_at_prev(
            consume(i.bytes, value.state, TokenType::Semicolon, "Expected ';' after expression."@),
            OpCode::Pop,
        )
    }
}

/// Compiles the declarations of a block up to its `}` or the end.
pub open spec fn block_items(i: Input, s: Parse) -> Step
    decreases tokens_left(i.bytes, s), 10int,
    when well_placed(i.bytes, s)
{
    if check(s, TokenType::RightBrace) || check(s, TokenType::Eof) {
        go(s)
    } else {
        let item = declaration(i, s);
        if item.abort is Some {
            item
        } else if token_taken(i.bytes, s, item.state) {
            block_items(i, item.state)
        } else {
            item
        }
    }
}

/// What follows the declarations of a block: its `}`.
pub open spec fn after_items(bytes: Seq<u8>, items: Step) -> Step {
    if items.abort is Some {
        items
    } else {
        go(consume(bytes, items.state, TokenType::RightBrace, "Expected '}' after block"@))
    }
}

/// Compiles a block, behind its `{`.
pub open spec fn block(i: Input, s: Parse) -> Step
    decreases tokens_left(i.bytes, s), 11int,
    when well_placed(i.bytes, s)
{
    after_items(i.bytes, block_items(i, s))
}

/// Compiles an expression.
pub open spec fn expression(i: Input, s: Parse) -> Step
    decreases tokens_left(i.bytes, s), 3int,
    when well_placed(i.bytes, s)
{
    parse_precedence(i, s, Precedence::Assignment.rank())
}

/// Compiles the expression between two parentheses, behind the first.
pub open spec fn grouping(i: Input, s: Parse) -> Step
    decreases tokens_left(i.bytes, s), 4int,
    when well_placed(i.bytes, s)
{
    let inner = expression(i, s);
    if inner.abort is Some {
        inner
    } else {
        go(consume(i.bytes, inner.state, TokenType::RightParen, "Expected ')'"@))
    }
}

/// Compiles the right operand of an `and`.
pub open spec fn and(i: Input, s: Parse) -> Step
    decreases tokens_left(i.bytes, s), 4int,
    when well_placed(i.bytes, s)
{
    match s.prev {
        None => stop(s, "prev token is null"@),
        Some(token) => {
            let line = line_of(token);
            let end_jump = s.code.len() as int;
            let right = parse_precedence(
                i,
                emit(emit_jump(s, OpCode::JumpIfFalse, line), OpCode::Pop, line),
                Precedence::And.rank(),
            );
            if right.abort is Some {
                right
            } else {
                patch_jump(right.state, end_jump)
            }
        },
    }
}

/// Compiles the right operand of an `or`.
pub open spec fn or(i: Input, s: Parse) -> Step
    decreases tokens_left(i.bytes, s), 4int,
    when well_placed(i.bytes, s)
{
    match s.prev {
        None => stop(s, "prev token is null"@),
        Some(token) => {
            let line = line_of(token);
            let else_jump = s.code.len() as int;
            let end_jump = else_jump + 3;
            let jumps = emit_jump(emit_jump(s, OpCode::JumpIfFalse, line), OpCode::Jump, line);
            let taken = patch_jump(jumps, else_jump);
            if taken.abort is Some {
                taken
            } else {
                let right = parse_precedence(
                    i,
                    emit(taken.state, OpCode::Pop, line),
                    Precedence::Or.rank(),
                );
                if right.abort is Some {
                    right
                } else {
                    patch_jump(right.state, end_jump)
                }
            }
        },
    }
}

/// Compiles the operand of a unary operator, then the operator.
pub open spec fn unary(i: Input, s: Parse) -> Step
    decreases tokens_left(i.bytes, s), 4int,
    when well_placed(i.bytes, s)
{
    match s.prev {
        None => stop(s, "prev token is null"@),
        Some(token) => {
            let operand = parse_precedence(i, s, Precedence::Unary.rank());
            if operand.abort is Some {
                operand
            } else if token.token_type == TokenType::Bang {
                go(emit(operand.state, OpCode::Not, line_of(token)))
            } else if token.token_type == TokenType::Minus {
                go(emit(operand.state, OpCode::Negate, line_of(token)))
            } else {
                operand
            }
        },
    }
}

/// Writes the instructions of a binary operator.
pub open spec fn emit_operator(s: Parse, operator: TokenType, line: i32) -> Parse {
    match operator {
        TokenType::Plus => emit(s, OpCode::Add, line),
        TokenType::Minus => emit(s, OpCode::Subtract, line),
        TokenType::Star => emit(s, OpCode::Multiply, line),
        TokenType::Slash => emit(s, OpCode::Divide, line),
        TokenType::BangEqual => emit(emit(s, OpCode::Equal, line), OpCode::Not, line),
        TokenType::EqualEqual => emit(s, OpCode::Equal, line),
        TokenType::Greater => emit(s, OpCode::Greater, line),
        TokenType::GreaterEqual => emit(emit(s, OpCode::Less, line), OpCode::Not, line),
        TokenType::Less => emit(s, OpCode::Less, line),
        TokenType::LessEqual => emit(emit(s, OpCode::Greater, line), OpCode::Not, line),
        _ => s,
    }
}

/// Compiles the right operand of a binary operator, then the operator.
pub open spec fn binary(i: Input, s: Parse) -> Step
    decreases tokens_left(i.bytes, s), 4int,
    when well_placed(i.bytes, s)
{
    match s.prev {
        None => stop(s, "prev token is null"@),
        Some(token) => {
            let right = parse_precedence(
                i,
                s,
                rule_for(token.token_type).precedence.rank() + 1,
            );
            if right.abort is Some {
                right
            } else {
                go(emit_operator(right.state, token.token_type, line_of(token)))
            }
        },
    }
}

/// Compiles a reference to the variable that the token taken last names.
pub open spec fn variable(i: Input, s: Parse, can_assign: bool) -> Step
    decreases tokens_left(i.bytes, s), 5int,
    when well_placed(i.bytes, s)
{
    match s.prev {
        Some(token) => named_variable(i, s, lexeme_chars(i.bytes, token.lexeme), can_assign),
        None => stop(s, "No prev token. Can't get prev lexeme"@),
    }
}

/// How a variable is addressed.
pub struct Target {
    /// The instruction that reads the variable.
    pub get_op: OpCode,
    /// The instruction that assigns to it.
    pub set_op: OpCode,
    /// The slot of a local, or the index of the constant that holds the
    /// name of a global.
    pub operand: u8,
}

/// Finds how the variable `name` is addressed: a local by the slot that the
/// name resolves to, any other name as a global, whose name is added to the
/// constants.  Gives up on a local whose initializer is still being compiled.
pub open spec fn target(s: Parse, name: Seq<char>) -> (Step, Target) {
    match resolved_slot(s.locals, name) {
        Some(slot) => if s.locals[slot].initialized {
            (
                go(s),
                Target {
                    get_op: OpCode::GetLocal,
                    set_op: OpCode::SetLocal,
                    operand: slot as u8,
                },
            )
        } else {
            (
                stop(s, "Use of uninitialized local variable "@ + name),
                Target { get_op: OpCode::GetLocal, set_op: OpCode::SetLocal, operand: 0 },
            )
        },
        None => (
            identifier_constant(s, name).0,
            Target {
                get_op: OpCode::GetGlobal,
                set_op: OpCode::SetGlobal,
                operand: identifier_constant(s, name).1,
            },
        ),
    }
}

/// Compiles a read of the variable `name`, or an assignment to it if one may
/// stand here and a `=` follows.
pub open spec fn named_variable(i: Input, s: Parse, name: Seq<char>, can_assign: bool) -> Step
    decreases tokens_left(i.bytes, s), 4int,
    when well_placed(i.bytes, s)
{
    proof {
        lemma_advance(i.bytes, target(s, name).0.state);
    }
    match s.prev {
        None => stop(s, "prev token is null"@),
        Some(token) => {
            let line = line_of(token);
            let found = target(s, name);
            if found.0.abort is Some {
                found.0
            } else if can_assign && check(found.0.state, TokenType::Equal) {
                let value = expression(i, advance(i.bytes, found.0.state));
                if value.abort is Some {
                    value
                } else {
                    go(emit_operand(value.state, found.1.set_op, found.1.operand, line))
                }
            } else {
                go(emit_operand(found.0.state, found.1.get_op, found.1.operand, line))
            }
        },
    }
}

/// Compiles a number: the constant that the text of the token stands for.
pub open spec fn number(i: Input, s: Parse) -> Step {
    match s.prev {
        None => stop(s, "prev token is null"@),
        Some(token) => {
            let text = lexeme_chars(i.bytes, token.lexeme);
            match (i.numbers)(text) {
                Some(n) => emit_constant(s, ValueView::Number(n), line_of(token)),
                None => stop(s, "Failed to parse '"@ + text + "' as number"@),
            }
        },
    }
}

/// Compiles a string: the constant that holds the text between its quotes.
pub open spec fn string(bytes: Seq<u8>, s: Parse) -> Step {
    match s.prev {
        None => stop(s, "prev token is null"@),
        Some(token) => emit_constant(
            s,
            ValueView::String(
                lexeme_chars(
                    bytes,
                    Lexeme {
                        start: (token.lexeme.start + 1) as usize,
                        len: (token.lexeme.len - 2) as usize,
                    },
                ),
            ),
            line_of(token),
        ),
    }
}

/// Compiles `nil`, `true` or `false`.
pub open spec fn literal(s: Parse) -> Step {
    match s.prev {
        None => stop(s, "prev token is null"@),
        Some(token) => if token.token_type == TokenType::Nil {
            go(emit(s, OpCode::Nil, line_of(token)))
        } else if token.token_type == TokenType::True {
            go(emit(s, OpCode::True, line_of(token)))
        } else if token.token_type == TokenType::False {
            go(emit(s, OpCode::False, line_of(token)))
        } else {
            go(s)
        },
    }
}

/// Does what a parse rule names.
pub open spec fn call(i: Input, s: Parse, parse_fn: ParseFn, can_assign: bool) -> Step
    decreases tokens_left(i.bytes, s), 6int,
    when well_placed(i.bytes, s)
{
    match parse_fn {
        ParseFn::Grouping => grouping(i, s),
        ParseFn::Unary => unary(i, s),
        ParseFn::Binary => binary(i, s),
        ParseFn::Variable => variable(i, s, can_assign),
        ParseFn::String => string(i.bytes, s),
        ParseFn::Number => number(i, s),
        ParseFn::Literal => literal(s),
        ParseFn::And => and(i, s),
        ParseFn::Or => or(i, s),
    }
}

/// Compiles the operators that bind at least as tightly as `rank`, each
/// with its right operand, for as long as one follows.
pub open spec fn infix_loop(i: Input, s: Parse, rank: int, can_assign: bool) -> Step
    decreases tokens_left(i.bytes, s), 1int,
    when well_placed(i.bytes, s)
{
    proof {
        lemma_advance(i.bytes, s);
    }
    match s.current {
        None => stop(s, "current token is null"@),
        Some(token) => if rank > rule_for(token.token_type).precedence.rank() {
            go(s)
        } else {
            let taken = advance(i.bytes, s);
            match rule_for(token.token_type).infix {
                None => stop(taken, "Expected expression"@),
                Some(parse_fn) => {
                    let operand = call(i, taken, parse_fn, can_assign);
                    if operand.abort is Some {
                        operand
                    } else if token_taken(i.bytes, s, operand.state) {
                        infix_loop(i, operand.state, rank, can_assign)
                    } else {
                        operand
                    }
                },
            }
        },
    }
}

/// What follows the operators of an expression: where an assignment may
/// stand, a `=` left over has no target.
pub open spec fn after_operators(bytes: Seq<u8>, operators: Step, can_assign: bool) -> Step {
    if operators.abort is Some {
        operators
    } else if can_assign && check(operators.state, TokenType::Equal) {
        stop(advance(bytes, operators.state), "Invalid assignment target"@)
    } else {
        operators
    }
}

/// Compiles an expression whose operators all bind at least as tightly as
/// `rank`: the operand that the next token starts, then every operator that
/// binds tightly enough with its right operand.  An assignment may stand
/// here if `rank` is no tighter than that of assignment; a `=` left over
/// then has no target.
pub open spec fn parse_precedence(i: Input, s: Parse, rank: int) -> Step
    decreases tokens_left(i.bytes, s), 2int,
    when well_placed(i.bytes, s)
{
    proof {
        lemma_advance(i.bytes, s);
    }
    let taken = advance(i.bytes, s);
    let can_assign = rank <= Precedence::Assignment.rank();
    match s.current {
        None => stop(taken, "prev token is null"@),
        Some(token) => match rule_for(token.token_type).prefix {
            None => stop(taken, "Expected expression"@),
            Some(parse_fn) => {
                let operand = call(i, taken, parse_fn, can_assign);
                if operand.abort is Some {
                    operand
                } else if !no_token_back(i.bytes, s, operand.state) {
                    operand
                } else {
                    after_operators(
                        i.bytes,
                        infix_loop(i, operand.state, rank, can_assign),
                        can_assign,
                    )
                }
            },
        },
    }
}

/// Compiles a declaration at the top level.  If it gives up, that is
/// recorded as a parse error at the token where it did.
#[verifier::opaque]
pub open spec fn top_level(i: Input, s: Parse) -> Parse {
    let step = declaration(i, s);
    match step.abort {
        None => step.state,
        Some(message) => error_here(i.bytes, step.state, message),
    }
}

/// Compiles declarations up to the end of the tokens.
pub open spec fn declarations(i: Input, s: Parse) -> Parse
    decreases tokens_left(i.bytes, s), 12int,
    when well_placed(i.bytes, s)
{
    if check(s, TokenType::Eof) {
        advance(i.bytes, s)
    } else {
        let next = top_level(i, s);
        if token_taken(i.bytes, s, next) {
            declarations(i, next)
        } else {
            next
        }
    }
}

/// What a compilation makes: code, the source line of each of its bytes,
/// and constants.
pub struct Compiled {
    pub code: Seq<u8>,
    pub lines: Seq<i32>,
    pub constants: Seq<ValueView>,
}

/// What compiling a source returns: the code of its declarations with a
/// `Return` behind, if no error was recorded, and the errors if any was.
pub open spec fn compile(i: Input) -> Result<Compiled, Seq<ErrorView>> {
    let end = declarations(i, advance(i.bytes, initial()));
    if end.errors.len() > 0 {
        Err(end.errors)
    } else {
        let line = match end.current {
            Some(token) => line_of(token),
            None => 0i32,
        };
        let done = emit(end, OpCode::Return, line);
        Ok(Compiled { code: done.code, lines: done.lines, constants: done.constants })
    }
}

/// What holds between the state `from` where a parsing step starts and the
/// state `to` that it reaches: `to` is well placed, has a token at hand, and
/// has no more tokens left than `from`.
pub open spec fn orderly(bytes: Seq<u8>, from: Parse, to: Parse) -> bool {
    &&& well_placed(bytes, to)
    &&& to.current is Some
    &&& no_token_back(bytes, from, to)
}

/// Closing a scope changes nothing about the tokens.
pub proof fn lemma_pop_locals_keeps_tokens(s: Parse)
    ensures
        pop_locals(s).state.position == s.position,
        pop_locals(s).state.current == s.current,
        pop_locals(s).state.prev == s.prev,
    decreases s.locals.len(),
{
    if !(s.locals.len() == 0 || s.locals.last().depth <= s.scope_depth) {
        match s.prev {
            Some(token) => {
                lemma_pop_locals_keeps_tokens(
                    Parse {
                        locals: s.locals.drop_last(),
                        ..emit(s, OpCode::Pop, line_of(token))
                    },
                );
            },
            None => {},
        }
    }
}

/// Skipping to the next statement gives no token back.
pub proof fn lemma_skip_to_statement(bytes: Seq<u8>, s: Parse)
    requires
        well_placed(bytes, s),
        s.current is Some,
    ensures
        orderly(bytes, s, skip_to_statement(bytes, s)),
    decreases tokens_left(bytes, s),
{
    if !(check(s, TokenType::Eof) || check_prev(s, TokenType::Semicolon)) {
        if !starts_statement(s.current->0.token_type) {
            lemma_advance(bytes, s);
            lemma_skip_to_statement(bytes, advance(bytes, s));
        }
    }
}

/// Taking the name of a variable gives no token back.
pub proof fn lemma_parse_variable(bytes: Seq<u8>, s: Parse, msg: Seq<char>)
    requires
        well_placed(bytes, s),
        s.current is Some,
    ensures
        orderly(bytes, s, parse_variable(bytes, s, msg).0.state),
{
    lemma_consume(bytes, s, TokenType::Identifier, msg);
}

/// No step that compiles a declaration or a statement gives a token back,
/// and each takes at least one unless it starts at the end of the tokens.
pub proof fn lemma_declaration(i: Input, s: Parse)
    requires
        well_placed(i.bytes, s),
        s.current is Some,
    ensures
        orderly(i.bytes, s, declaration(i, s).state),
        !check(s, TokenType::Eof) ==> token_taken(i.bytes, s, declaration(i, s).state),
    decreases tokens_left(i.bytes, s), 9int,
{
    lemma_advance(i.bytes, s);
    let step = if check(s, TokenType::Var) {
        lemma_var_declaration(i, advance(i.bytes, s));
        var_declaration(i, advance(i.bytes, s))
    } else {
        lemma_statement(i, s);
        statement(i, s)
    };
    if step.abort is None && step.state.panic_mode {
        lemma_skip_to_statement(i.bytes, Parse { panic_mode: false, ..step.state });
    }
}

/// See [`lemma_declaration`].
pub proof fn lemma_var_declaration(i: Input, s: Parse)
    requires
        well_placed(i.bytes, s),
        s.current is Some,
    ensures
        orderly(i.bytes, s, var_declaration(i, s).state),
{
    let named = parse_variable(i.bytes, s, "Expected variable name"@);
    lemma_parse_variable(i.bytes, s, "Expected variable name"@);
    if named.0.abort is None {
        lemma_advance(i.bytes, named.0.state);
        let value = if check(named.0.state, TokenType::Equal) {
            lemma_expression(i, advance(i.bytes, named.0.state));
            expression(i, advance(i.bytes, named.0.state))
        } else {
            match named.0.state.prev {
                Some(token) => go(emit(named.0.state, OpCode::Nil, line_of(token))),
                None => stop(named.0.state, "prev token is null"@),
            }
        };
        if value.abort is None {
            lemma_consume(
                i.bytes,
                value.state,
                TokenType::Semicolon,
                "Expected ';' after variable declaration."@,
            );
        }
    }
}

/// See [`lemma_declaration`].
pub proof fn lemma_statement(i: Input, s: Parse)
    requires
        well_placed(i.bytes, s),
        s.current is Some,
    ensures
        orderly(i.bytes, s, statement(i, s).state),
        !check(s, TokenType::Eof) ==> token_taken(i.bytes, s, statement(i, s).state),
    decreases tokens_left(i.bytes, s), 8int,
{
    lemma_advance(i.bytes, s);
    let next = advance(i.bytes, s);
    if check(s, TokenType::Print) {
        lemma_expression(i, next);
        let value = expression(i, next);
        if value.abort is None {
            lemma_consume(i.bytes, value.state, TokenType::Semicolon, "Expected ';' after value."@);
        }
    } else if check(s, TokenType::LeftBrace) {
        let opened = begin_scope(next);
        if opened.abort is None {
            lemma_block(i, opened.state);
            let body = block(i, opened.state);
            if body.abort is None {
                lemma_pop_locals_keeps_tokens(
                    Parse { scope_depth: (body.state.scope_depth - 1) as i32, ..body.state },
                );
            }
        }
    } else if check(s, TokenType::If) {
        lemma_if_statement(i, next);
    } else if check(s, TokenType::While) {
        lemma_while_statement(i, next);
    } else {
        lemma_expression(i, s);
        let value = expression(i, s);
        if value.abort is None {
            lemma_consume(
                i.bytes,
                value.state,
                TokenType::Semicolon,
                "Expected ';' after expression."@,
            );
        }
    }
}

/// See [`lemma_declaration`].
pub proof fn lemma_if_statement(i: Input, s: Parse)
    requires
        well_placed(i.bytes, s),
        s.current is Some,
    ensures
        orderly(i.bytes, s, if_statement(i, s).state),
    decreases tokens_left(i.bytes, s), 11int,
{
    let opened = consume(i.bytes, s, TokenType::LeftParen, "Expected '(' after 'if'."@);
    lemma_consume(i.bytes, s, TokenType::LeftParen, "Expected '(' after 'if'."@);
    lemma_expression(i, opened);
    let condition = expression(i, opened);
    if condition.abort is None {
        let closed = consume(
            i.bytes,
            condition.state,
            TokenType::RightParen,
            "Expected ')' after condition"@,
        );
        lemma_consume(
            i.bytes,
            condition.state,
            TokenType::RightParen,
            "Expected ')' after condition"@,
        );
        match closed.prev {
            None => {},
            Some(token) => {
                let line = line_of(token);
                let test = emit(emit_jump(closed, OpCode::JumpIfFalse, line), OpCode::Pop, line);
                lemma_statement(i, test);
                let first = statement(i, test);
                if first.abort is None {
                    let skipped = patch_jump(
                        emit_jump(first.state, OpCode::Jump, line),
                        closed.code.len() as int,
                    );
                    if skipped.abort is None {
                        let before_else = emit(skipped.state, OpCode::Pop, line);
                        if check(before_else, TokenType::Else) {
                            lemma_advance(i.bytes, before_else);
                            lemma_statement(i, advance(i.bytes, before_else));
                        }
                    }
                }
            },
        }
    }
}

/// See [`lemma_declaration`].
pub proof fn lemma_while_statement(i: Input, s: Parse)
    requires
        well_placed(i.bytes, s),
        s.current is Some,
    ensures
        orderly(i.bytes, s, while_statement(i, s).state),
    decreases tokens_left(i.bytes, s), 11int,
{
    let opened = consume(i.bytes, s, TokenType::LeftParen, "Expected '(' after 'while'."@);
    lemma_consume(i.bytes, s, TokenType::LeftParen, "Expected '(' after 'while'."@);
    lemma_expression(i, opened);
    let condition = expression(i, opened);
    if condition.abort is None {
        let closed = consume(
            i.bytes,
            condition.state,
            TokenType::RightParen,
            "Expected ')' after condition"@,
        );
        lemma_consume(
            i.bytes,
            condition.state,
            TokenType::RightParen,
            "Expected ')' after condition"@,
        );
        match closed.prev {
            None => {},
            Some(token) => {
                let line = line_of(token);
                let test = emit(emit_jump(closed, OpCode::JumpIfFalse, line), OpCode::Pop, line);
                lemma_statement(i, test);
            },
        }
    }
}

/// See [`lemma_declaration`].
pub proof fn lemma_block_items(i: Input, s: Parse)
    requires
        well_placed(i.bytes, s),
        s.current is Some,
    ensures
        orderly(i.bytes, s, block_items(i, s).state),
    decreases tokens_left(i.bytes, s), 10int,
{
    if !(check(s, TokenType::RightBrace) || check(s, TokenType::Eof)) {
        lemma_declaration(i, s);
        let item = declaration(i, s);
        if item.abort is None {
            lemma_block_items(i, item.state);
        }
    }
}

/// See [`lemma_declaration`].
pub proof fn lemma_block(i: Input, s: Parse)
    requires
        well_placed(i.bytes, s),
        s.current is Some,
    ensures
        orderly(i.bytes, s, block(i, s).state),
    decreases tokens_left(i.bytes, s), 11int,
{
    lemma_block_items(i, s);
    let items = block_items(i, s);
    if items.abort is None {
        lemma_consume(i.bytes, items.state, TokenType::RightBrace, "Expected '}' after block"@);
    }
}

/// No step that compiles a piece of an expression gives a token back, and
/// an expression takes at least one token unless it starts at the end of
/// the tokens.
pub proof fn lemma_expression(i: Input, s: Parse)
    requires
        well_placed(i.bytes, s),
        s.current is Some,
    ensures
        orderly(i.bytes, s, expression(i, s).state),
        !check(s, TokenType::Eof) ==> token_taken(i.bytes, s, expression(i, s).state),
    decreases tokens_left(i.bytes, s), 3int,
{
    lemma_parse_precedence(i, s, Precedence::Assignment.rank());
}

/// See [`lemma_expression`].
pub proof fn lemma_parse_precedence(i: Input, s: Parse, rank: int)
    requires
        well_placed(i.bytes, s),
        s.current is Some,
    ensures
        orderly(i.bytes, s, parse_precedence(i, s, rank).state),
        !check(s, TokenType::Eof) ==> token_taken(i.bytes, s, parse_precedence(i, s, rank).state),
    decreases tokens_left(i.bytes, s), 2int,
{
    lemma_advance(i.bytes, s);
    let taken = advance(i.bytes, s);
    let can_assign = rank <= Precedence::Assignment.rank();
    match rule_for(s.current->0.token_type).prefix {
        None => {},
        Some(parse_fn) => {
            lemma_call(i, taken, parse_fn, can_assign);
            let operand = call(i, taken, parse_fn, can_assign);
            if operand.abort is None {
                lemma_infix_loop(i, operand.state, rank, can_assign);
                let operators = infix_loop(i, operand.state, rank, can_assign);
                if operators.abort is None {
                    lemma_advance(i.bytes, operators.state);
                }
            }
        },
    }
}

/// See [`lemma_expression`].
pub proof fn lemma_infix_loop(i: Input, s: Parse, rank: int, can_assign: bool)
    requires
        well_placed(i.bytes, s),
        s.current is Some,
    ensures
        orderly(i.bytes, s, infix_loop(i, s, rank, can_assign).state),
    decreases tokens_left(i.bytes, s), 1int,
{
    let token = s.current->0;
    if !(rank > rule_for(token.token_type).precedence.rank()) {
        lemma_advance(i.bytes, s);
        let taken = advance(i.bytes, s);
        match rule_for(token.token_type).infix {
            None => {},
            Some(parse_fn) => {
                lemma_call(i, taken, parse_fn, can_assign);
                let operand = call(i, taken, parse_fn, can_assign);
                if operand.abort is None {
                    lemma_infix_loop(i, operand.state, rank, can_assign);
                }
            },
        }
    }
}

/// See [`lemma_expression`].
pub proof fn lemma_call(i: Input, s: Parse, parse_fn: ParseFn, can_assign: bool)
    requires
        well_placed(i.bytes, s),
        s.current is Some,
    ensures
        orderly(i.bytes, s, call(i, s, parse_fn, can_assign).state),
    decreases tokens_left(i.bytes, s), 6int,
{
    match parse_fn {
        ParseFn::Grouping => {
            lemma_expression(i, s);
            let inner = expression(i, s);
            if inner.abort is None {
                lemma_consume(i.bytes, inner.state, TokenType::RightParen, "Expected ')'"@);
            }
        },
        ParseFn::Unary => {
            lemma_parse_precedence(i, s, Precedence::Unary.rank());
        },
        ParseFn::Binary => {
            if s.prev is Some {
                lemma_parse_precedence(
                    i,
                    s,
                    rule_for(s.prev->0.token_type).precedence.rank() + 1,
                );
            }
        },
        ParseFn::Variable => {
            if s.prev is Some {
                lemma_named_variable(
                    i,
                    s,
                    lexeme_chars(i.bytes, s.prev->0.lexeme),
                    can_assign,
                );
            }
        },
        ParseFn::String => {},
        ParseFn::Number => {},
        ParseFn::Literal => {},
        ParseFn::And => {
            if s.prev is Some {
                let line = line_of(s.prev->0);
                lemma_parse_precedence(
                    i,
                    emit(emit_jump(s, OpCode::JumpIfFalse, line), OpCode::Pop, line),
                    Precedence::And.rank(),
                );
            }
        },
        ParseFn::Or => {
            if s.prev is Some {
                let line = line_of(s.prev->0);
                let jumps = emit_jump(
                    emit_jump(s, OpCode::JumpIfFalse, line),
                    OpCode::Jump,
                    line,
                );
                let taken = patch_jump(jumps, s.code.len() as int);
                if taken.abort is None {
                    lemma_parse_precedence(
                        i,
                        emit(taken.state, OpCode::Pop, line),
                        Precedence::Or.rank(),
                    );
                }
            }
        },
    }
}

/// See [`lemma_expression`].
pub proof fn lemma_named_variable(i: Input, s: Parse, name: Seq<char>, can_assign: bool)
    requires
        well_placed(i.bytes, s),
        s.current is Some,
    ensures
        orderly(i.bytes, s, named_variable(i, s, name, can_assign).state),
    decreases tokens_left(i.bytes, s), 4int,
{
    if s.prev is Some {
        let found = target(s, name);
        if found.0.abort is None && can_assign && check(found.0.state, TokenType::Equal) {
            lemma_advance(i.bytes, found.0.state);
            lemma_expression(i, advance(i.bytes, found.0.state));
        }
    }
}

/// At the top level no declaration gives a token back, and each takes at
/// least one.
pub proof fn lemma_top_level(i: Input, s: Parse)
    requires
        well_placed(i.bytes, s),
        s.current is Some,
    ensures
        orderly(i.bytes, s, top_level(i, s)),
        !check(s, TokenType::Eof) ==> token_taken(i.bytes, s, top_level(i, s)),
{
    reveal(top_level);
    lemma_declaration(i, s);
}

} // verus!
