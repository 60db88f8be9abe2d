use treelox::error::Message;
use treelox::scanner::LexError;
use treelox::scanner::Scanner;
use treelox::text::characters;
use treelox::text::slice_text;
use treelox::text::to_decimal;
use treelox::token::Literal;
use treelox::token::Token;
use treelox::token::TokenType;

fn scan(source: &str) -> (Vec<Token>, Vec<LexError>) {
    let mut scanner = Scanner::new(source.to_string());
    let tokens = scanner.scan_tokens();
    (tokens, scanner.errors)
}

fn kinds(source: &str) -> Vec<TokenType> {
    scan(source).0.iter().map(|t| t.kind).collect()
}

fn token(
    kind: TokenType,
    lexeme: &str,
    literal: Option<Literal>,
    line: usize,
    column: usize,
) -> Token {
    Token { kind, lexeme: lexeme.to_string(), literal, line, column }
}

#[test]
fn var_assign() {
    let (tokens, errors) = scan("var x = 10;");
    assert!(errors.is_empty());
    assert_eq!(
        tokens,
        vec![
            token(TokenType::Var, "var", None, 1, 1),
            token(TokenType::Identifier, "x", Some(Literal::String("x".to_string())), 1, 5),
            token(TokenType::Equal, "=", None, 1, 7),
            token(TokenType::Number, "10", Some(Literal::Number("10".to_string())), 1, 9),
            token(TokenType::Semicolon, ";", None, 1, 11),
            token(TokenType::Eof, "", None, 1, 12),
        ]
    );
}

#[test]
fn fn_call() {
    assert_eq!(
        kinds("fun () { print 10; }"),
        vec![
            TokenType::Fun,
            TokenType::LeftParen,
            TokenType::RightParen,
            TokenType::LeftBrace,
            TokenType::Print,
            TokenType::Number,
            TokenType::Semicolon,
            TokenType::RightBrace,
            TokenType::Eof,
        ]
    );
}

#[test]
fn while_loop() {
    let (tokens, errors) = scan("var x = 10;\n while x <= 20\n{ x += 1;\n print x;\n}");
    assert!(errors.is_empty());
    let lines: Vec<usize> = tokens.iter().map(|t| t.line).collect();
    assert_eq!(lines, vec![1, 1, 1, 1, 1, 2, 2, 2, 2, 3, 3, 3, 3, 3, 3, 4, 4, 4, 5, 5]);
    let columns: Vec<usize> = tokens.iter().map(|t| t.column).collect();
    assert_eq!(columns, vec![1, 5, 7, 9, 11, 2, 8, 10, 13, 1, 3, 5, 6, 8, 9, 2, 8, 9, 1, 2]);
    assert_eq!(tokens[7], token(TokenType::LessEqual, "<=", None, 2, 10));
    assert_eq!(tokens[11], token(TokenType::Plus, "+", None, 3, 5));
    assert_eq!(tokens[12], token(TokenType::Equal, "=", None, 3, 6));
}

#[test]
fn every_mark_has_its_kind() {
    assert_eq!(
        kinds("(){},.-+;*/ ! != = == < <= > >="),
        vec![
            TokenType::LeftParen,
            TokenType::RightParen,
            TokenType::LeftBrace,
            TokenType::RightBrace,
            TokenType::Comma,
            TokenType::Dot,
            TokenType::Minus,
            TokenType::Plus,
            TokenType::Semicolon,
            TokenType::Star,
            TokenType::Slash,
            TokenType::Bang,
            TokenType::BangEqual,
            TokenType::Equal,
            TokenType::EqualEqual,
            TokenType::Less,
            TokenType::LessEqual,
            TokenType::Greater,
            TokenType::GreaterEqual,
            TokenType::Eof,
        ]
    );
}

#[test]
fn every_reserved_word_has_its_kind() {
    assert_eq!(
        kinds("and class else false for fun if nil or print return super this true var while"),
        vec![
            TokenType::And,
            TokenType::Class,
            TokenType::Else,
            TokenType::False,
            TokenType::For,
            TokenType::Fun,
            TokenType::If,
            TokenType::Nil,
            TokenType::Or,
            TokenType::Print,
            TokenType::Return,
            TokenType::Super,
            TokenType::This,
            TokenType::True,
            TokenType::Var,
            TokenType::While,
            TokenType::Eof,
        ]
    );
}

#[test]
fn the_longest_word_is_taken() {
    let (tokens, _) = scan("orchid _for class_ fun2 a_b_1");
    let names: Vec<&str> = tokens.iter().map(|t| t.lexeme.as_str()).collect();
    assert_eq!(names, vec!["orchid", "_for", "class_", "fun2", "a_b_1", ""]);
    assert!(tokens[..5].iter().all(|t| t.kind == TokenType::Identifier));
    assert_eq!(tokens[1].literal, Some(Literal::String("_for".to_string())));
}

#[test]
fn a_comment_runs_to_the_end_of_its_line() {
    let (tokens, errors) = scan("1 // two three\n4 / 5 // six");
    assert!(errors.is_empty());
    let names: Vec<&str> = tokens.iter().map(|t| t.lexeme.as_str()).collect();
    assert_eq!(names, vec!["1", "4", "/", "5", ""]);
    assert_eq!(tokens[1].line, 2);
}

#[test]
fn a_number_may_have_a_fraction() {
    let (tokens, _) = scan("45.67 8");
    assert_eq!(
        tokens[0],
        token(TokenType::Number, "45.67", Some(Literal::Number("45.67".to_string())), 1, 1)
    );
    assert_eq!(
        tokens[1],
        token(TokenType::Number, "8", Some(Literal::Number("8".to_string())), 1, 7)
    );
}

#[test]
fn a_point_without_digits_is_not_part_of_the_number() {
    assert_eq!(
        kinds("123.foo"),
        vec![TokenType::Number, TokenType::Dot, TokenType::Identifier, TokenType::Eof]
    );
    assert_eq!(kinds("123."), vec![TokenType::Number, TokenType::Dot, TokenType::Eof]);
    assert_eq!(kinds(".5"), vec![TokenType::Dot, TokenType::Number, TokenType::Eof]);
    let (tokens, _) = scan("1.2.3");
    let names: Vec<&str> = tokens.iter().map(|t| t.lexeme.as_str()).collect();
    assert_eq!(names, vec!["1.2", ".", "3", ""]);
}

#[test]
fn a_string_carries_what_stands_between_its_quotes() {
    let (tokens, errors) = scan("\"hi there\" \"\"");
    assert!(errors.is_empty());
    assert_eq!(
        tokens[0],
        token(
            TokenType::String,
            "\"hi there\"",
            Some(Literal::String("hi there".to_string())),
            1,
            1
        )
    );
    assert_eq!(
        tokens[1],
        token(TokenType::String, "\"\"", Some(Literal::String(String::new())), 1, 12)
    );
}

#[test]
fn a_string_may_run_over_lines() {
    let (tokens, errors) = scan("\"a\nb\nc\" x");
    assert!(errors.is_empty());
    assert_eq!(tokens[0].literal, Some(Literal::String("a\nb\nc".to_string())));
    assert_eq!((tokens[0].line, tokens[0].column), (3, 1));
    assert_eq!((tokens[1].line, tokens[1].column), (3, 4));
    let (later, _) = scan("  \n   \"a\nbc\"+");
    assert_eq!((later[0].line, later[0].column), (3, 4));
    assert_eq!((later[1].line, later[1].column), (3, 4));
}

#[test]
fn a_string_keeps_characters_outside_ascii() {
    let (tokens, errors) = scan("\"gr\u{fc}\u{df} \u{4e16}\u{754c}\";");
    assert!(errors.is_empty());
    assert_eq!(tokens[0].literal, Some(Literal::String("gr\u{fc}\u{df} \u{4e16}\u{754c}".to_string())));
    assert_eq!(tokens[1].kind, TokenType::Semicolon);
}

#[test]
fn a_string_without_its_end_is_an_error() {
    let (tokens, errors) = scan("1\n\"abc\ndef");
    assert_eq!(kinds("1\n\"abc\ndef"), vec![TokenType::Number, TokenType::Eof]);
    assert_eq!(errors, vec![LexError { line: 3, message: Message::UnterminatedString }]);
    assert_eq!(errors[0].report(), "[line 3] Error: Unterminated string.");
    assert_eq!(tokens.last().unwrap().line, 3);
}

#[test]
fn scanning_goes_on_after_a_character_it_cannot_use() {
    let (tokens, errors) = scan("1 @ 2 #\n$ 3");
    let names: Vec<&str> = tokens.iter().map(|t| t.lexeme.as_str()).collect();
    assert_eq!(names, vec!["1", "2", "3", ""]);
    assert_eq!(
        errors,
        vec![
            LexError { line: 1, message: Message::UnexpectedCharacter },
            LexError { line: 1, message: Message::UnexpectedCharacter },
            LexError { line: 2, message: Message::UnexpectedCharacter },
        ]
    );
    assert_eq!(errors[2].report(), "[line 2] Error: Unexpected character.");
}

#[test]
fn an_empty_source_is_one_end_marker() {
    assert_eq!(scan("").0, vec![token(TokenType::Eof, "", None, 1, 1)]);
    assert_eq!(scan(" \t\r\n").0, vec![token(TokenType::Eof, "", None, 2, 1)]);
    assert_eq!(scan("\n\n  ").0, vec![token(TokenType::Eof, "", None, 3, 3)]);
}

#[test]
fn scanning_twice_gives_the_same_tokens() {
    let source = "class A < B { init(x) { this.x = x or 1.5; } } // done";
    assert_eq!(scan(source), scan(source));
}

#[test]
fn a_scanner_at_its_end_adds_only_an_end_marker() {
    let mut scanner = Scanner::new("a".to_string());
    let first = scanner.scan_tokens();
    let second = scanner.scan_tokens();
    assert_eq!(first.len(), 2);
    assert_eq!(second.len(), 3);
    assert_eq!(second[2].kind, TokenType::Eof);
}

#[test]
fn characters_are_joined_in_order() {
    let chars = characters("h\u{e9}llo");
    assert_eq!(chars, vec!['h', '\u{e9}', 'l', 'l', 'o']);
    assert_eq!(slice_text(&chars, 1, 4), "\u{e9}ll");
    assert_eq!(slice_text(&chars, 2, 2), "");
    assert_eq!(slice_text(&chars, 0, 5), "h\u{e9}llo");
}

#[test]
fn numbers_are_written_in_decimal() {
    assert_eq!(to_decimal(0), "0");
    assert_eq!(to_decimal(7), "7");
    assert_eq!(to_decimal(10), "10");
    assert_eq!(to_decimal(1234), "1234");
    assert_eq!(to_decimal(90_017), "90017");
    assert_eq!(to_decimal(usize::MAX), usize::MAX.to_string());
}

#[test]
fn a_token_shows_its_spelling_or_its_payload() {
    let (tokens, _) = scan("while (x1 >= \"a b\") 2.50;");
    let shown: Vec<String> = tokens.iter().map(|t| t.text()).collect();
    assert_eq!(shown, vec!["while", "(", "x1", ">=", "a b", ")", "2.50", ";", "eof"]);
    assert_eq!(Literal::Nil.text(), "nil");
    assert_eq!(Literal::Bool(true).text(), "true");
    assert_eq!(Literal::Bool(false).text(), "false");
    assert_eq!(Literal::Identifier("this".to_string()).text(), "this");
    assert_eq!(tokens[2].clone(), tokens[2]);
}

#[test]
fn a_scanner_knows_whether_it_found_errors() {
    let mut clean = Scanner::new("a + b".to_string());
    assert!(!clean.had_error());
    clean.scan_tokens();
    assert!(!clean.had_error());
    let mut broken = Scanner::new("a ^ b".to_string());
    broken.scan_tokens();
    assert!(broken.had_error());
}

#[test]
fn a_source_of_any_real_length_gets_a_scanner() {
    let mut scanner = Scanner::try_new("print 1;".to_string()).unwrap();
    assert_eq!(scanner.scan_tokens().len(), 4);
    assert_eq!((scanner.line, scanner.current, scanner.column), (1, 8, 9));
    assert_eq!(Token::default().kind, TokenType::Eof);
}

#[test]
fn after_the_scan_the_scanner_stands_at_the_end() {
    let mut scanner = Scanner::new("var a = 1;\nprint a;".to_string());
    scanner.scan_tokens();
    assert_eq!(scanner.current, 19);
    assert_eq!(scanner.start, scanner.current);
    assert_eq!(scanner.line, 2);
    assert_eq!(scanner.line_start, 11);
    assert_eq!(scanner.column, 9);

    let mut empty = Scanner::new(String::new());
    empty.scan_tokens();
    assert_eq!((empty.start, empty.current, empty.column), (0, 0, 1));
}
