use lox_vm::interpreter::{InterpreterError, InterpreterErrorType};
use lox_vm::rules::{ParseFn, ParseRule, ParseRuleTable, Precedence};
use lox_vm::scanner::{Lexeme, LexemeError, ScanError, Scanner, Token, TokenType};

/// Scans the whole source: the kinds, texts and lines of its tokens, `Eof`
/// included, and the messages and lines of the failed scans.
fn scan_all(source: &str) -> (Vec<(TokenType, String, usize)>, Vec<(String, usize)>) {
    let mut scanner = Scanner::new(source.to_string());
    let mut tokens = Vec::new();
    let mut errors = Vec::new();
    for _ in 0..source.len() + 2 {
        match scanner.scan_next() {
            Ok(token) => {
                let text = scanner.get_lexeme_str(&token.lexeme).unwrap().to_string();
                tokens.push((token.token_type, text, token.line));
                if token.token_type == TokenType::Eof {
                    return (tokens, errors);
                }
            }
            Err(ScanError { line, message }) => errors.push((message, line)),
        }
    }
    panic!("the scanner does not reach the end");
}

fn kinds(source: &str) -> Vec<TokenType> {
    let (tokens, errors) = scan_all(source);
    assert!(errors.is_empty(), "{:?}", errors);
    tokens.into_iter().map(|t| t.0).collect()
}

#[test]
fn empty_source_is_eof() {
    let mut scanner = Scanner::new(String::new());
    let expected = Token {
        token_type: TokenType::Eof,
        lexeme: Lexeme { start: 0, len: 0 },
        line: 1,
    };
    assert_eq!(scanner.scan_next().unwrap(), expected);
    assert_eq!(scanner.scan_next().unwrap(), expected);
    assert_eq!(scanner.len(), 0);
}

#[test]
fn single_character_tokens() {
    assert_eq!(
        kinds("(){},.-+;/*"),
        vec![
            TokenType::LeftParen,
            TokenType::RightParen,
            TokenType::LeftBrace,
            TokenType::RightBrace,
            TokenType::Comma,
            TokenType::Dot,
            TokenType::Minus,
            TokenType::Plus,
            TokenType::Semicolon,
            TokenType::Slash,
            TokenType::Star,
            TokenType::Eof,
        ]
    );
}

#[test]
fn one_or_two_character_tokens() {
    assert_eq!(
        kinds("! != = == < <= > >="),
        vec![
            TokenType::Bang,
            TokenType::BangEqual,
            TokenType::Equal,
            TokenType::EqualEqual,
            TokenType::Less,
            TokenType::LessEqual,
            TokenType::Greater,
            TokenType::GreaterEqual,
            TokenType::Eof,
        ]
    );
    assert_eq!(
        kinds("!===<==>="),
        vec![
            TokenType::BangEqual,
            TokenType::EqualEqual,
            TokenType::LessEqual,
            TokenType::Equal,
            TokenType::GreaterEqual,
            TokenType::Eof,
        ]
    );
}

#[test]
fn keywords_and_identifiers() {
    assert_eq!(
        kinds(
            "and class else false for fun if nil or print return super this true var while"
        ),
        vec![
            TokenType::And,
            TokenType::Class,
            TokenType::Else,
            TokenType::False,
            TokenType::For,
            TokenType::Fun,
            TokenType::If,
            TokenType::Nil,
            TokenType::Or,
            TokenType::Print,
            TokenType::Return,
            TokenType::Super,
            TokenType::This,
            TokenType::True,
            TokenType::Var,
            TokenType::While,
            TokenType::Eof,
        ]
    );
    assert_eq!(
        kinds("andy _and And classy i f or1 whil whiles _ a1_b2"),
        vec![
            TokenType::Identifier,
            TokenType::Identifier,
            TokenType::Identifier,
            TokenType::Identifier,
            TokenType::Identifier,
            TokenType::Identifier,
            TokenType::Identifier,
            TokenType::Identifier,
            TokenType::Identifier,
            TokenType::Identifier,
            TokenType::Identifier,
            TokenType::Eof,
        ]
    );
}

#[test]
fn lexemes_are_exact_source_substrings() {
    let (tokens, errors) = scan_all("var answer = 42.5;\nprint \"hi there\" ;");
    assert!(errors.is_empty());
    assert_eq!(
        tokens,
        vec![
            (TokenType::Var, "var".to_string(), 1),
            (TokenType::Identifier, "answer".to_string(), 1),
            (TokenType::Equal, "=".to_string(), 1),
            (TokenType::Number, "42.5".to_string(), 1),
            (TokenType::Semicolon, ";".to_string(), 1),
            (TokenType::Print, "print".to_string(), 2),
            (TokenType::String, "\"hi there\"".to_string(), 2),
            (TokenType::Semicolon, ";".to_string(), 2),
            (TokenType::Eof, String::new(), 2),
        ]
    );
}

#[test]
fn token_spans_point_into_the_source() {
    let mut scanner = Scanner::new("  foo <= 12".to_string());
    assert_eq!(
        scanner.scan_next().unwrap(),
        Token { token_type: TokenType::Identifier, lexeme: Lexeme { start: 2, len: 3 }, line: 1 }
    );
    assert_eq!(
        scanner.scan_next().unwrap(),
        Token { token_type: TokenType::LessEqual, lexeme: Lexeme { start: 6, len: 2 }, line: 1 }
    );
    assert_eq!(
        scanner.scan_next().unwrap(),
        Token { token_type: TokenType::Number, lexeme: Lexeme { start: 9, len: 2 }, line: 1 }
    );
    assert_eq!(
        scanner.scan_next().unwrap(),
        Token { token_type: TokenType::Eof, lexeme: Lexeme { start: 11, len: 0 }, line: 1 }
    );
}

#[test]
fn numbers_take_a_fraction_only_with_digits_behind_the_dot() {
    let (tokens, _) = scan_all("1 23.45 6. .7 8.9.0");
    let texts: Vec<(TokenType, &str)> = tokens.iter().map(|t| (t.0, t.1.as_str())).collect();
    assert_eq!(
        texts,
        vec![
            (TokenType::Number, "1"),
            (TokenType::Number, "23.45"),
            (TokenType::Number, "6"),
            (TokenType::Dot, "."),
            (TokenType::Dot, "."),
            (TokenType::Number, "7"),
            (TokenType::Number, "8.9"),
            (TokenType::Dot, "."),
            (TokenType::Number, "0"),
            (TokenType::Eof, ""),
        ]
    );
}

#[test]
fn whitespace_and_comments_are_skipped_and_lines_counted() {
    let (tokens, errors) = scan_all("// first\n  a // rest\n\r\t\n/ b // last");
    assert!(errors.is_empty());
    assert_eq!(
        tokens,
        vec![
            (TokenType::Identifier, "a".to_string(), 2),
            (TokenType::Slash, "/".to_string(), 4),
            (TokenType::Identifier, "b".to_string(), 4),
            (TokenType::Eof, String::new(), 4),
        ]
    );
}

#[test]
fn strings_may_span_lines_and_hold_any_text() {
    let (tokens, errors) = scan_all("\"a\nb\" \"héllo // 日本\" \"\"");
    assert!(errors.is_empty());
    assert_eq!(
        tokens,
        vec![
            (TokenType::String, "\"a\nb\"".to_string(), 2),
            (TokenType::String, "\"héllo // 日本\"".to_string(), 2),
            (TokenType::String, "\"\"".to_string(), 2),
            (TokenType::Eof, String::new(), 2),
        ]
    );
}

#[test]
fn unterminated_string_is_a_scan_error() {
    let (tokens, errors) = scan_all("a \"never\nends");
    assert_eq!(errors, vec![("Unterminated string.".to_string(), 2)]);
    assert_eq!(
        tokens,
        vec![(TokenType::Identifier, "a".to_string(), 1), (TokenType::Eof, String::new(), 2)]
    );
}

#[test]
fn unknown_characters_are_scan_errors() {
    let (tokens, errors) = scan_all("a # b\n@");
    assert_eq!(
        errors,
        vec![("Unexpected character.".to_string(), 1), ("Unexpected character.".to_string(), 2)]
    );
    assert_eq!(
        tokens.iter().map(|t| t.0).collect::<Vec<_>>(),
        vec![TokenType::Identifier, TokenType::Identifier, TokenType::Eof]
    );
    // Each byte of a character outside ASCII is passed over alone.
    let (tokens, errors) = scan_all("é;");
    assert_eq!(errors.len(), 2);
    assert_eq!(
        tokens.iter().map(|t| t.0).collect::<Vec<_>>(),
        vec![TokenType::Semicolon, TokenType::Eof]
    );
}

#[test]
fn scan_error_text() {
    let e = ScanError { line: 12, message: "Unexpected character.".to_string() };
    assert_eq!(e.to_text(), "[12]: Unexpected character.");
    assert_eq!(e.clone().to_text(), e.to_text());
}

#[test]
fn lexeme_text_is_checked_against_the_source() {
    let scanner = Scanner::new("héllo".to_string());
    assert_eq!(scanner.len(), 6);
    assert_eq!(scanner.get_lexeme_str(&Lexeme { start: 0, len: 6 }), Ok("héllo"));
    assert_eq!(scanner.get_lexeme_str(&Lexeme { start: 0, len: 3 }), Ok("hé"));
    assert_eq!(scanner.get_lexeme_str(&Lexeme { start: 3, len: 3 }), Ok("llo"));
    assert_eq!(scanner.get_lexeme_str(&Lexeme { start: 6, len: 0 }), Ok(""));
    assert_eq!(scanner.get_lexeme_str(&Lexeme { start: 0, len: 0 }), Ok(""));
    assert_eq!(
        scanner.get_lexeme_str(&Lexeme { start: 0, len: 7 }),
        Err(LexemeError::OutOfRange)
    );
    assert_eq!(
        scanner.get_lexeme_str(&Lexeme { start: 7, len: 0 }),
        Err(LexemeError::OutOfRange)
    );
    assert_eq!(
        scanner.get_lexeme_str(&Lexeme { start: usize::MAX, len: 2 }),
        Err(LexemeError::OutOfRange)
    );
    assert_eq!(
        scanner.get_lexeme_str(&Lexeme { start: 0, len: 2 }),
        Err(LexemeError::SplitsCharacter)
    );
    assert_eq!(
        scanner.get_lexeme_str(&Lexeme { start: 2, len: 2 }),
        Err(LexemeError::SplitsCharacter)
    );
}

#[test]
fn precedence_order() {
    let order = [
        Precedence::Lowest,
        Precedence::Assignment,
        Precedence::Or,
        Precedence::And,
        Precedence::Equality,
        Precedence::Comparison,
        Precedence::Term,
        Precedence::Factor,
        Precedence::Unary,
        Precedence::Call,
        Precedence::Primary,
    ];
    for (i, a) in order.iter().enumerate() {
        for (j, b) in order.iter().enumerate() {
            assert_eq!(a.is_greater_than(b), i > j);
            assert_eq!(a.is_greater_than_or_eq(b), i >= j);
        }
        if i + 1 < order.len() {
            assert_eq!(a.higher(), order[i + 1]);
        }
    }
}

#[test]
fn parse_rule_table_holds_what_was_added() {
    let mut table = ParseRuleTable::new();
    assert_eq!(table.get(&TokenType::Plus), None);
    table.add(&TokenType::Plus, None, Some(ParseFn::Binary), Precedence::Term);
    table.add_null(&TokenType::Semicolon);
    assert_eq!(
        table.get(&TokenType::Plus),
        Some(ParseRule { prefix: None, infix: Some(ParseFn::Binary), precedence: Precedence::Term })
    );
    assert_eq!(
        table.get(&TokenType::Semicolon),
        Some(ParseRule::new(None, None, Precedence::Lowest))
    );
    assert_eq!(table.get(&TokenType::Minus), None);
    table.add(&TokenType::Plus, Some(ParseFn::Unary), None, Precedence::Unary);
    assert_eq!(
        table.get(&TokenType::Plus),
        Some(ParseRule { prefix: Some(ParseFn::Unary), infix: None, precedence: Precedence::Unary })
    );
}

#[test]
fn interpreter_error_text() {
    let e = InterpreterError::new(
        "Failed to read code byte".to_string(),
        InterpreterErrorType::CompileError,
    );
    assert_eq!(e.to_text(), "CompileError: Failed to read code byte");
    let e = InterpreterError::new("boom".to_string(), InterpreterErrorType::RuntimeError);
    assert_eq!(e.to_text(), "RuntimeError: boom");
    assert_eq!(InterpreterErrorType::CompileError.name(), "CompileError");
    assert_eq!(InterpreterErrorType::RuntimeError.name(), "RuntimeError");
}
