use aether_lsp::lexer::Lexer;
use aether_lsp::parser::tokenize;
use aether_lsp::token::Token;

fn all_tokens(src: &str) -> Vec<(Token, usize, usize, bool)> {
    let mut lexer = Lexer::new(src);
    let mut out = Vec::new();
    loop {
        let t = lexer.next_token();
        let end = t == Token::EOF;
        out.push((t, lexer.line(), lexer.column(), lexer.had_whitespace()));
        if end {
            break;
        }
    }
    out
}

#[test]
fn triple_quoted_string_spans_two_lines() {
    let src = "\"\"\"line one\nline two\"\"\"";
    let mut lexer = Lexer::new(src);
    let t = lexer.next_token();
    assert_eq!(t, Token::String("line one\nline two".to_string()));
    assert_eq!(lexer.line(), 1);
    assert_eq!(lexer.line_after(), 2);
    let start_line = lexer.line();
    assert_eq!(lexer.next_token(), Token::EOF);
    assert_eq!(lexer.line(), start_line + 1);
}

#[test]
fn positions_follow_a_linear_scan() {
    let src = "Set A 1\n  B  /* x\ny */ C\n// c\nD";
    let toks = all_tokens(src);
    let expected: Vec<(usize, usize)> = vec![
        (1, 1),
        (1, 5),
        (1, 7),
        (1, 8),
        (2, 3),
        (3, 6),
        (3, 7),
        (4, 5),
        (5, 1),
        (5, 2),
    ];
    let got: Vec<(usize, usize)> = toks.iter().map(|t| (t.1, t.2)).collect();
    assert_eq!(got, expected);
    for w in got.windows(2) {
        assert!(w[0] < w[1]);
    }
}

#[test]
fn tokenize_positions_strictly_increase() {
    let toks = tokenize("A\n\nB C\n\"x\ny\" D");
    for w in toks.windows(2) {
        assert!((w[0].line, w[0].column) < (w[1].line, w[1].column));
    }
    assert_eq!(toks.last().unwrap().token, Token::EOF);
}

#[test]
fn whitespace_flag_marks_spaced_brackets() {
    let toks = all_tokens("A [B[");
    assert_eq!(toks[1].0, Token::LeftBracket);
    assert!(toks[1].3);
    assert_eq!(toks[3].0, Token::LeftBracket);
    assert!(!toks[3].3);
}

#[test]
fn two_character_operators() {
    let kinds: Vec<Token> = all_tokens("-> == != <= >= && || = ! < > & |")
        .into_iter()
        .map(|t| t.0)
        .collect();
    assert_eq!(
        kinds,
        vec![
            Token::Arrow,
            Token::Equal,
            Token::NotEqual,
            Token::LessEqual,
            Token::GreaterEqual,
            Token::And,
            Token::Or,
            Token::Assign,
            Token::Not,
            Token::Less,
            Token::Greater,
            Token::Illegal('&'),
            Token::Illegal('|'),
            Token::EOF,
        ]
    );
}

#[test]
fn string_escapes_are_decoded() {
    let mut lexer = Lexer::new(r#""a\nb\t\"q\\ \x""#);
    assert_eq!(
        lexer.next_token(),
        Token::String("a\nb\t\"q\\ \\x".to_string())
    );
}

#[test]
fn unterminated_string_is_illegal() {
    let mut lexer = Lexer::new("\"abc");
    assert_eq!(lexer.next_token(), Token::Illegal('"'));
}

#[test]
fn number_stops_before_dot_without_digit() {
    let kinds: Vec<Token> = all_tokens("3.14 7.x").into_iter().map(|t| t.0).collect();
    assert_eq!(
        kinds,
        vec![
            Token::Number("3.14".to_string()),
            Token::Number("7".to_string()),
            Token::Illegal('.'),
            Token::Identifier("x".to_string()),
            Token::EOF,
        ]
    );
}

#[test]
fn keywords_are_case_sensitive() {
    assert_eq!(Token::lookup_keyword("Set"), Token::SetKw);
    assert_eq!(Token::lookup_keyword("set"), Token::Identifier("set".to_string()));
    assert_eq!(Token::lookup_keyword("True"), Token::Boolean(true));
    assert_eq!(Token::lookup_keyword("Null"), Token::Null);
}

#[test]
fn big_integer_token_keeps_digits() {
    let mut lexer = Lexer::new("12345678901234567");
    assert_eq!(
        lexer.next_token(),
        Token::BigInteger("12345678901234567".to_string())
    );
    let mut lexer = Lexer::new("1234567890123456.5");
    assert_eq!(
        lexer.next_token(),
        Token::Number("1234567890123456.5".to_string())
    );
}

#[test]
fn non_ascii_numerals_are_illegal() {
    let kinds: Vec<Token> = all_tokens("٣ 4").into_iter().map(|t| t.0).collect();
    assert_eq!(
        kinds,
        vec![Token::Illegal('٣'), Token::Number("4".to_string()), Token::EOF]
    );
}

#[test]
fn second_decimal_point_ends_the_literal() {
    let kinds: Vec<Token> = all_tokens("1.2.3").into_iter().map(|t| t.0).collect();
    assert_eq!(
        kinds,
        vec![
            Token::Number("1.2".to_string()),
            Token::Illegal('.'),
            Token::Number("3".to_string()),
            Token::EOF,
        ]
    );
}

#[test]
fn comments_and_blanks_are_skipped() {
    let kinds: Vec<Token> = all_tokens("A /* x\ny */ B // c\nC").into_iter().map(|t| t.0).collect();
    assert_eq!(
        kinds,
        vec![
            Token::Identifier("A".to_string()),
            Token::Identifier("B".to_string()),
            Token::Newline,
            Token::Identifier("C".to_string()),
            Token::EOF,
        ]
    );
    let kinds: Vec<Token> = all_tokens(" \tA\r\n\nB ").into_iter().map(|t| t.0).collect();
    assert_eq!(
        kinds,
        vec![
            Token::Identifier("A".to_string()),
            Token::Newline,
            Token::Newline,
            Token::Identifier("B".to_string()),
            Token::EOF,
        ]
    );
}

#[test]
fn unknown_escape_keeps_backslash_and_unclosed_strings_are_illegal() {
    let mut lexer = Lexer::new(r#""a\tb\"c\\d\qe""#);
    assert_eq!(lexer.next_token(), Token::String("a\tb\"c\\d\\qe".to_string()));
    for src in ["\"abc", "\"\"\"abc", "\"ab\\"] {
        let mut lexer = Lexer::new(src);
        assert_eq!(lexer.next_token(), Token::Illegal('"'));
    }
}
