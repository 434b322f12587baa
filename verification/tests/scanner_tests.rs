use rlox::scanner::Scanner;
use rlox::token::{ErrorKind, ScanError, Token, TokenType};

/// Scan a source string and return the tokens, the reported diagnostics, and
/// the final value of the line counter.
fn scan(source: &str) -> (Vec<Token>, Vec<ScanError>, usize) {
    let mut scanner = Scanner::new(source.as_bytes().to_vec());
    let tokens = scanner.scan_tokens();
    (tokens, scanner.errors, scanner.line)
}

fn kinds(tokens: &[Token]) -> Vec<TokenType> {
    tokens.iter().map(|t| t.kind.clone()).collect()
}

fn number_value(token: &Token) -> f64 {
    match &token.kind {
        TokenType::Number(text) => String::from_utf8(text.clone())
            .expect("numeric text is ASCII")
            .parse::<f64>()
            .expect("numeric text parses"),
        other => panic!("expected a number token, got {:?}", other),
    }
}

#[test]
fn empty_input_yields_single_eof() {
    let (tokens, errors, line) = scan("");
    assert_eq!(kinds(&tokens), vec![TokenType::Eof]);
    assert_eq!(tokens[0].line, 1);
    assert_eq!(tokens[0].lexeme, None);
    assert!(errors.is_empty());
    assert_eq!(line, 1);
}

#[test]
fn every_scan_ends_with_exactly_one_eof() {
    for source in ["", "var", "\"open", "@@@", "1 + 2\n", "// only a comment"] {
        let (tokens, _, _) = scan(source);
        assert!(!tokens.is_empty());
        assert_eq!(tokens.last().unwrap().kind, TokenType::Eof);
        let eofs = tokens.iter().filter(|t| t.kind == TokenType::Eof).count();
        assert_eq!(eofs, 1);
    }
}

#[test]
fn eof_line_is_newline_count_plus_one() {
    let (tokens, _, _) = scan("a\nb\nc");
    assert_eq!(tokens.last().unwrap().line, 3);
    let (tokens, _, _) = scan("\n\n\n");
    assert_eq!(kinds(&tokens), vec![TokenType::Eof]);
    assert_eq!(tokens[0].line, 4);
    let (tokens, _, _) = scan("no newline at all");
    assert_eq!(tokens.last().unwrap().line, 1);
}

#[test]
fn maximal_munch_keeps_classify_whole() {
    let (tokens, errors, _) = scan("classify");
    assert_eq!(
        kinds(&tokens),
        vec![TokenType::Identifier(b"classify".to_vec()), TokenType::Eof]
    );
    assert!(errors.is_empty());
}

#[test]
fn bang_equal_folds_into_one_token() {
    let (tokens, _, _) = scan("!=");
    assert_eq!(kinds(&tokens), vec![TokenType::BangEqual, TokenType::Eof]);
    assert_eq!(tokens[0].lexeme.as_deref(), Some(b"!=".as_slice()));
}

#[test]
fn bang_at_end_of_input_stays_simple() {
    let (tokens, _, _) = scan("!");
    assert_eq!(kinds(&tokens), vec![TokenType::Bang, TokenType::Eof]);
    assert_eq!(tokens[0].lexeme.as_deref(), Some(b"!".as_slice()));
}

#[test]
fn trailing_dot_is_not_part_of_the_number() {
    let (tokens, errors, _) = scan("10.");
    assert_eq!(
        kinds(&tokens),
        vec![TokenType::Number(b"10".to_vec()), TokenType::Dot, TokenType::Eof]
    );
    assert_eq!(number_value(&tokens[0]), 10.0);
    assert!(errors.is_empty());
}

#[test]
fn multi_line_string_keeps_newline_and_counts_lines() {
    let (tokens, errors, line) = scan("\"a\nb\"");
    assert_eq!(
        kinds(&tokens),
        vec![TokenType::String(b"a\nb".to_vec()), TokenType::Eof]
    );
    // The token starts on line 1; the counter ends on line 2.
    assert_eq!(tokens[0].line, 1);
    assert_eq!(line, 2);
    assert!(errors.is_empty());
}

#[test]
fn unterminated_string_reports_once_and_yields_no_token() {
    let (tokens, errors, _) = scan("\"abc");
    assert_eq!(kinds(&tokens), vec![TokenType::Eof]);
    assert_eq!(
        errors,
        vec![ScanError { kind: ErrorKind::UnterminatedString, line: 1 }]
    );
}

#[test]
fn unterminated_string_is_reported_at_its_starting_line() {
    let (tokens, errors, _) = scan("ab\n\"xy");
    assert_eq!(
        kinds(&tokens),
        vec![TokenType::Identifier(b"ab".to_vec()), TokenType::Eof]
    );
    assert_eq!(
        errors,
        vec![ScanError { kind: ErrorKind::UnterminatedString, line: 2 }]
    );
}

#[test]
fn line_comment_contributes_no_token() {
    let (tokens, errors, line) = scan("1 + 2 // trailing comment");
    assert_eq!(
        kinds(&tokens),
        vec![
            TokenType::Number(b"1".to_vec()),
            TokenType::Plus,
            TokenType::Number(b"2".to_vec()),
            TokenType::Eof,
        ]
    );
    assert_eq!(number_value(&tokens[0]), 1.0);
    assert_eq!(number_value(&tokens[2]), 2.0);
    assert!(tokens.iter().all(|t| t.line == 1));
    assert_eq!(line, 1);
    assert!(errors.is_empty());
}

#[test]
fn comment_ends_at_the_newline() {
    let (tokens, _, _) = scan("// note\nx");
    assert_eq!(
        kinds(&tokens),
        vec![TokenType::Identifier(b"x".to_vec()), TokenType::Eof]
    );
    assert_eq!(tokens[0].line, 2);
}

#[test]
fn end_to_end_two_statements() {
    let (tokens, errors, _) = scan("var x = 10;\nprint x;");
    assert_eq!(
        kinds(&tokens),
        vec![
            TokenType::Var,
            TokenType::Identifier(b"x".to_vec()),
            TokenType::Equal,
            TokenType::Number(b"10".to_vec()),
            TokenType::Semicolon,
            TokenType::Print,
            TokenType::Identifier(b"x".to_vec()),
            TokenType::Semicolon,
            TokenType::Eof,
        ]
    );
    assert_eq!(number_value(&tokens[3]), 10.0);
    let lines: Vec<usize> = tokens.iter().map(|t| t.line).collect();
    assert_eq!(lines, vec![1, 1, 1, 1, 1, 2, 2, 2, 2]);
    assert!(errors.is_empty());
}

#[test]
fn all_sixteen_keywords_are_reserved() {
    let cases = [
        ("and", TokenType::And),
        ("class", TokenType::Class),
        ("else", TokenType::Else),
        ("false", TokenType::False),
        ("for", TokenType::For),
        ("fun", TokenType::Fun),
        ("if", TokenType::If),
        ("nil", TokenType::Nil),
        ("or", TokenType::Or),
        ("print", TokenType::Print),
        ("return", TokenType::Return),
        ("super", TokenType::Super),
        ("this", TokenType::This),
        ("true", TokenType::True),
        ("var", TokenType::Var),
        ("while", TokenType::While),
    ];
    for (spelling, expected) in cases {
        let (tokens, _, _) = scan(spelling);
        assert_eq!(kinds(&tokens), vec![expected, TokenType::Eof]);
        assert_eq!(tokens[0].lexeme.as_deref(), Some(spelling.as_bytes()));
    }
}

#[test]
fn near_keywords_stay_identifiers() {
    for spelling in ["classy", "Class", "vars", "if_", "andor", "ret", "_var"] {
        let (tokens, _, _) = scan(spelling);
        assert_eq!(
            kinds(&tokens),
            vec![TokenType::Identifier(spelling.as_bytes().to_vec()), TokenType::Eof]
        );
    }
}

#[test]
fn all_punctuation_tokens() {
    let (tokens, errors, _) = scan("(){},.-+;*/");
    assert_eq!(
        kinds(&tokens),
        vec![
            TokenType::LeftParen,
            TokenType::RightParen,
            TokenType::LeftBrace,
            TokenType::RightBrace,
            TokenType::Comma,
            TokenType::Dot,
            TokenType::Minus,
            TokenType::Plus,
            TokenType::Semicolon,
            TokenType::Star,
            TokenType::Slash,
            TokenType::Eof,
        ]
    );
    assert!(errors.is_empty());
}

#[test]
fn one_and_two_character_operators() {
    let (tokens, _, _) = scan("! != = == < <= > >=");
    assert_eq!(
        kinds(&tokens),
        vec![
            TokenType::Bang,
            TokenType::BangEqual,
            TokenType::Equal,
            TokenType::EqualEqual,
            TokenType::Less,
            TokenType::LessEqual,
            TokenType::Greater,
            TokenType::GreaterEqual,
            TokenType::Eof,
        ]
    );
}

#[test]
fn unexpected_character_is_reported_and_skipped() {
    let (tokens, errors, _) = scan("@");
    assert_eq!(kinds(&tokens), vec![TokenType::Eof]);
    assert_eq!(
        errors,
        vec![ScanError { kind: ErrorKind::UnexpectedCharacter, line: 1 }]
    );
}

#[test]
fn scan_continues_after_unexpected_characters() {
    let (tokens, errors, _) = scan("@#\n$var x");
    assert_eq!(
        kinds(&tokens),
        vec![TokenType::Var, TokenType::Identifier(b"x".to_vec()), TokenType::Eof]
    );
    assert_eq!(
        errors,
        vec![
            ScanError { kind: ErrorKind::UnexpectedCharacter, line: 1 },
            ScanError { kind: ErrorKind::UnexpectedCharacter, line: 1 },
            ScanError { kind: ErrorKind::UnexpectedCharacter, line: 2 },
        ]
    );
}

#[test]
fn integer_and_fractional_numbers() {
    let (tokens, _, _) = scan("123 3.14 0.5");
    assert_eq!(
        kinds(&tokens),
        vec![
            TokenType::Number(b"123".to_vec()),
            TokenType::Number(b"3.14".to_vec()),
            TokenType::Number(b"0.5".to_vec()),
            TokenType::Eof,
        ]
    );
    assert_eq!(number_value(&tokens[0]), 123.0);
    assert_eq!(number_value(&tokens[1]), 3.14);
    assert_eq!(number_value(&tokens[2]), 0.5);
}

#[test]
fn second_dot_ends_the_number() {
    let (tokens, _, _) = scan("10.5.3");
    assert_eq!(
        kinds(&tokens),
        vec![
            TokenType::Number(b"10.5".to_vec()),
            TokenType::Dot,
            TokenType::Number(b"3".to_vec()),
            TokenType::Eof,
        ]
    );
}

#[test]
fn leading_dot_is_not_a_number() {
    let (tokens, _, _) = scan(".5");
    assert_eq!(
        kinds(&tokens),
        vec![TokenType::Dot, TokenType::Number(b"5".to_vec()), TokenType::Eof]
    );
}

#[test]
fn dot_before_identifier_stays_separate() {
    let (tokens, _, _) = scan("7.x");
    assert_eq!(
        kinds(&tokens),
        vec![
            TokenType::Number(b"7".to_vec()),
            TokenType::Dot,
            TokenType::Identifier(b"x".to_vec()),
            TokenType::Eof,
        ]
    );
}

#[test]
fn string_payload_excludes_the_quotes() {
    let (tokens, _, _) = scan("\"hello\"");
    assert_eq!(
        kinds(&tokens),
        vec![TokenType::String(b"hello".to_vec()), TokenType::Eof]
    );
    // The lexeme still covers the whole literal, quotes included.
    assert_eq!(tokens[0].lexeme.as_deref(), Some(b"\"hello\"".as_slice()));
}

#[test]
fn empty_string_literal() {
    let (tokens, errors, _) = scan("\"\"");
    assert_eq!(
        kinds(&tokens),
        vec![TokenType::String(b"".to_vec()), TokenType::Eof]
    );
    assert!(errors.is_empty());
}

#[test]
fn comment_markers_inside_a_string_are_text() {
    let (tokens, _, _) = scan("\"//\"");
    assert_eq!(
        kinds(&tokens),
        vec![TokenType::String(b"//".to_vec()), TokenType::Eof]
    );
}

#[test]
fn string_spanning_three_lines() {
    let (tokens, _, line) = scan("\"a\nb\nc\"x");
    assert_eq!(
        kinds(&tokens),
        vec![
            TokenType::String(b"a\nb\nc".to_vec()),
            TokenType::Identifier(b"x".to_vec()),
            TokenType::Eof,
        ]
    );
    assert_eq!(tokens[0].line, 1);
    assert_eq!(tokens[1].line, 3);
    assert_eq!(line, 3);
}

#[test]
fn whitespace_yields_nothing() {
    let (tokens, errors, line) = scan(" \t\r");
    assert_eq!(kinds(&tokens), vec![TokenType::Eof]);
    assert!(errors.is_empty());
    assert_eq!(line, 1);
}

#[test]
fn carriage_return_newline_counts_one_line() {
    let (tokens, _, line) = scan("a\r\nb");
    assert_eq!(tokens[0].line, 1);
    assert_eq!(tokens[1].line, 2);
    assert_eq!(line, 2);
}

#[test]
fn byte_classifiers_match_ascii_classes() {
    assert!(rlox::utils::is_digit(b'0'));
    assert!(rlox::utils::is_digit(b'9'));
    assert!(!rlox::utils::is_digit(b'/'));
    assert!(!rlox::utils::is_digit(b':'));
    assert!(rlox::utils::is_alpha(b'a'));
    assert!(rlox::utils::is_alpha(b'z'));
    assert!(rlox::utils::is_alpha(b'A'));
    assert!(rlox::utils::is_alpha(b'Z'));
    assert!(rlox::utils::is_alpha(b'_'));
    assert!(!rlox::utils::is_alpha(b'@'));
    assert!(!rlox::utils::is_alpha(b'['));
    assert!(!rlox::utils::is_alpha(b'`'));
    assert!(!rlox::utils::is_alpha(b'{'));
    assert!(!rlox::utils::is_alpha(b'5'));
    assert!(rlox::utils::is_alphanumeric(b'5'));
    assert!(rlox::utils::is_alphanumeric(b'g'));
    assert!(rlox::utils::is_alphanumeric(b'_'));
    assert!(!rlox::utils::is_alphanumeric(b' '));
}

#[test]
fn slash_alone_is_a_token() {
    let (tokens, _, _) = scan("8/2");
    assert_eq!(
        kinds(&tokens),
        vec![
            TokenType::Number(b"8".to_vec()),
            TokenType::Slash,
            TokenType::Number(b"2".to_vec()),
            TokenType::Eof,
        ]
    );
}

#[test]
fn comment_swallows_operators_to_end_of_line() {
    let (tokens, errors, _) = scan("// != \"open @");
    assert_eq!(kinds(&tokens), vec![TokenType::Eof]);
    assert!(errors.is_empty());
}
