use uvl::lexer::Lexer;
use uvl::token::{TokenKind, TokenType};
use uvl::value::UvlError;

#[test]
fn t_a() {
    assert!(true);
}

#[test]
fn scan_integer() {
    let source = String::from("1");
    let mut lex = Lexer::new(&source);

    let tokens = lex.scan().unwrap();
    assert_eq!(tokens.len(), 2);
    assert_eq!(tokens[0].lexeme, "1");
    assert!(matches!(tokens[0].ttype, TokenType::Number(b) if b == 1.0f64.to_bits()));
}

#[test]
fn scan_fractional_number() {
    let source = String::from("12.5");
    let mut lex = Lexer::new(&source);
    let tokens = lex.scan().unwrap();
    assert_eq!(tokens.len(), 2);
    assert_eq!(tokens[0].lexeme, "12.5");
    assert!(matches!(tokens[0].ttype, TokenType::Number(b) if b == 12.5f64.to_bits()));
}

#[test]
fn dot_without_digit_is_not_fraction() {
    let source = String::from("1.x");
    let mut lex = Lexer::new(&source);
    let tokens = lex.scan().unwrap();
    assert_eq!(tokens.len(), 4);
    assert!(matches!(tokens[0].ttype, TokenType::Number(b) if b == 1.0f64.to_bits()));
    assert!(matches!(tokens[1].ttype, TokenType::Dot));
    assert!(matches!(tokens[2].ttype, TokenType::Identifier));
    assert_eq!(tokens[2].lexeme, "x");
}

#[test]
fn scan_keywords_and_operators() {
    let source = String::from("let mut x = 1 <= 2;");
    let mut lex = Lexer::new(&source);
    let tokens = lex.scan().unwrap();
    let kinds: Vec<TokenKind> = tokens.iter().map(|t| t.ttype.kind()).collect();
    assert_eq!(
        kinds,
        vec![
            TokenKind::Let,
            TokenKind::Mut,
            TokenKind::Identifier,
            TokenKind::Equal,
            TokenKind::Number,
            TokenKind::LessEqual,
            TokenKind::Number,
            TokenKind::Semicolon,
            TokenKind::Eof,
        ]
    );
}

#[test]
fn scan_string_literal_payload() {
    let source = String::from("\"hi there\"");
    let mut lex = Lexer::new(&source);
    let tokens = lex.scan().unwrap();
    assert_eq!(tokens.len(), 2);
    assert_eq!(tokens[0].lexeme, "\"hi there\"");
    assert!(matches!(&tokens[0].ttype, TokenType::Str(s) if s == "hi there"));
}

#[test]
fn string_with_newline_counts_lines() {
    let source = String::from("\"a\nb\" x");
    let mut lex = Lexer::new(&source);
    let tokens = lex.scan().unwrap();
    assert!(matches!(&tokens[0].ttype, TokenType::Str(s) if s == "a\nb"));
    assert_eq!(tokens[0].line, 1);
    assert_eq!(tokens[1].line, 1);
}

#[test]
fn comment_produces_no_token() {
    let source = String::from("1 // all of this vanishes\n2");
    let mut lex = Lexer::new(&source);
    let tokens = lex.scan().unwrap();
    assert_eq!(tokens.len(), 3);
    assert!(matches!(tokens[0].ttype, TokenType::Number(_)));
    assert!(matches!(tokens[1].ttype, TokenType::Number(_)));
    assert_eq!(tokens[1].line, 1);
}

#[test]
fn unterminated_string_is_reported() {
    let source = String::from("\"abc");
    let mut lex = Lexer::new(&source);
    let r = lex.scan();
    match r {
        Err(UvlError::LexError(m)) => assert_eq!(m, "[line 0] Unterminated string"),
        _ => panic!("expected a lexing fault"),
    }
}

#[test]
fn unrecognized_character_is_reported() {
    let source = String::from("1 + #");
    let mut lex = Lexer::new(&source);
    let r = lex.scan();
    match r {
        Err(UvlError::LexError(m)) => assert_eq!(m, "[line 0] Unexpected character '#'"),
        _ => panic!("expected a lexing fault"),
    }
}

#[test]
fn lexeme_round_trip_without_whitespace() {
    let source = String::from("(1+2)*30<=4;");
    let mut lex = Lexer::new(&source);
    let tokens = lex.scan().unwrap();

    let mut rebuilt = String::new();
    for t in tokens.iter() {
        rebuilt.push_str(&t.lexeme);
    }
    assert_eq!(rebuilt, source);

    let mut lex2 = Lexer::new(&rebuilt);
    let tokens2 = lex2.scan().unwrap();
    assert_eq!(tokens.len(), tokens2.len());
    for i in 0..tokens.len() {
        assert_eq!(tokens[i].ttype.kind(), tokens2[i].ttype.kind());
        assert_eq!(tokens[i].lexeme, tokens2[i].lexeme);
        assert_eq!(tokens[i].line, tokens2[i].line);
    }
}

#[test]
fn decimal_rendering() {
    assert_eq!(uvl::common::format_u64(0), "0");
    assert_eq!(uvl::common::format_u64(7), "7");
    assert_eq!(uvl::common::format_u64(12345), "12345");
}

#[test]
fn diagnostic_formatter_exact() {
    let ctx = uvl::ast::Ctx {
        file: String::from("main.uvl"),
        line: 3,
        module: String::from("root"),
    };
    let m = uvl::common::make_error_msg(&ctx, String::from("boom"));
    assert_eq!(m, "File \"<main.uvl>\", line 3, in <root>\n    boom");
}
