use tree_walk_lox::lox::{Lox, LoxError};
use tree_walk_lox::scanner::{ScanError, Scanner};
use tree_walk_lox::token::{Literal, TokenKind};

fn kinds(source: &str) -> Vec<TokenKind> {
    Scanner::new(source.to_string()).scan_tokens().unwrap().iter().map(|t| t.kind).collect()
}

#[test]
fn scans_punctuation_and_keywords() {
    let tokens = Scanner::new("var a = 1;".to_string()).scan_tokens().unwrap();
    let kinds: Vec<TokenKind> = tokens.iter().map(|t| t.kind).collect();
    assert_eq!(
        kinds,
        vec![
            TokenKind::Var,
            TokenKind::Identifier,
            TokenKind::Equal,
            TokenKind::Number,
            TokenKind::Semicolon,
            TokenKind::Eof
        ]
    );
    assert_eq!(tokens[1].lexeme, "a");
    assert_eq!(tokens[3].lexeme, "1");
    assert_eq!(tokens[3].scanner_index, 8);
    assert_eq!(tokens[5].lexeme, "");
}

#[test]
fn an_empty_source_is_one_end_of_file_token() {
    let tokens = Scanner::new(String::new()).scan_tokens().unwrap();
    assert_eq!(tokens.len(), 1);
    assert_eq!(tokens[0].kind, TokenKind::Eof);
    assert_eq!(tokens[0].line, 1);
    assert_eq!(tokens[0].scanner_index, 0);
}

#[test]
fn scans_every_operator() {
    assert_eq!(
        kinds("( ) { } , . - + ; / * ! != = == > >= < <="),
        vec![
            TokenKind::LeftParen,
            TokenKind::RightParen,
            TokenKind::LeftBrace,
            TokenKind::RightBrace,
            TokenKind::Comma,
            TokenKind::Dot,
            TokenKind::Minus,
            TokenKind::Plus,
            TokenKind::Semicolon,
            TokenKind::Slash,
            TokenKind::Star,
            TokenKind::Bang,
            TokenKind::BangEqual,
            TokenKind::Equal,
            TokenKind::EqualEqual,
            TokenKind::Greater,
            TokenKind::GreaterEqual,
            TokenKind::Less,
            TokenKind::LessEqual,
            TokenKind::Eof
        ]
    );
}

#[test]
fn scans_every_reserved_word() {
    assert_eq!(
        kinds("and class else false for fun if nil or print return super this true var while"),
        vec![
            TokenKind::And,
            TokenKind::Class,
            TokenKind::Else,
            TokenKind::False,
            TokenKind::For,
            TokenKind::Fun,
            TokenKind::If,
            TokenKind::Nil,
            TokenKind::Or,
            TokenKind::Print,
            TokenKind::Return,
            TokenKind::Super,
            TokenKind::This,
            TokenKind::True,
            TokenKind::Var,
            TokenKind::While,
            TokenKind::Eof
        ]
    );
}

#[test]
fn true_and_false_carry_their_value() {
    let tokens = Scanner::new("true false nil".to_string()).scan_tokens().unwrap();
    assert!(matches!(tokens[0].literal, Literal::Bool(true)));
    assert!(matches!(tokens[1].literal, Literal::Bool(false)));
    assert!(matches!(tokens[2].literal, Literal::Nil));
}

#[test]
fn comments_and_blanks_make_no_token_and_lines_are_counted() {
    let tokens = Scanner::new("a // comment\n\tb\r\n// last".to_string()).scan_tokens().unwrap();
    assert_eq!(tokens.len(), 3);
    assert_eq!(tokens[0].line, 1);
    assert_eq!(tokens[1].lexeme, "b");
    assert_eq!(tokens[1].line, 2);
    assert_eq!(tokens[2].kind, TokenKind::Eof);
    assert_eq!(tokens[2].line, 3);
}

#[test]
fn strings_keep_their_text_and_may_span_lines() {
    let tokens = Scanner::new("\"one\ntwo\" x".to_string()).scan_tokens().unwrap();
    assert_eq!(tokens[0].kind, TokenKind::String);
    assert_eq!(tokens[0].lexeme, "\"one\ntwo\"");
    match &tokens[0].literal {
        Literal::Str(text) => assert_eq!(text, "one\ntwo"),
        _ => panic!("a string literal"),
    }
    assert_eq!(tokens[0].line, 2);
    assert_eq!(tokens[1].scanner_index, 10);
}

#[test]
fn numbers_take_a_fraction_only_with_digits_after_the_point() {
    let tokens = Scanner::new("12.5 7. 3.x".to_string()).scan_tokens().unwrap();
    let lexemes: Vec<&str> = tokens.iter().map(|t| t.lexeme.as_str()).collect();
    assert_eq!(lexemes, vec!["12.5", "7", ".", "3", ".", "x", ""]);
    assert!(matches!(tokens[0].literal, Literal::Number));
}

#[test]
fn names_start_with_a_letter_or_underscore_and_go_on_with_letters_and_digits() {
    let tokens = Scanner::new("_x a1b é2 foo_bar".to_string()).scan_tokens().unwrap();
    let lexemes: Vec<&str> = tokens.iter().map(|t| t.lexeme.as_str()).collect();
    assert_eq!(lexemes, vec!["_x", "a1b", "é2", "foo", "_bar", ""]);
    assert!(tokens[..5].iter().all(|t| t.kind == TokenKind::Identifier));
}

#[test]
fn a_name_that_begins_like_a_reserved_word_is_an_identifier() {
    assert_eq!(kinds("classy orchid"), vec![
        TokenKind::Identifier,
        TokenKind::Identifier,
        TokenKind::Eof
    ]);
}

#[test]
fn positions_count_characters_not_bytes() {
    let tokens = Scanner::new("é = 1;".to_string()).scan_tokens().unwrap();
    assert_eq!(tokens[1].scanner_index, 2);
    assert_eq!(tokens[2].scanner_index, 4);
}

#[test]
fn unterminated_string_is_an_error() {
    let result = Scanner::new("\"abc\n".to_string()).scan_tokens();
    assert_eq!(result.err(), Some(ScanError::UnterminatedString(2)));
}

#[test]
fn unexpected_character_is_an_error() {
    let result = Scanner::new("var a;\n@".to_string()).scan_tokens();
    assert_eq!(result.err(), Some(ScanError::UnexpectedCharacter('@', 2)));
    let digit_like = Scanner::new("٣".to_string()).scan_tokens();
    assert_eq!(digit_like.err(), Some(ScanError::UnexpectedCharacter('٣', 1)));
}

#[test]
fn the_front_end_reports_scan_errors() {
    let mut lox = Lox::new();
    let result = lox.run("print #;".to_string());
    assert!(matches!(result, Err(LoxError::Scan(ScanError::UnexpectedCharacter('#', 1)))));
    assert!(lox.reporter.had_error);
    assert!(!lox.reporter.had_runtime_error);
}
