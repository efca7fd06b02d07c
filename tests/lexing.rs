use z_lang::lexer::{lex, Token};

fn kinds(src: &str) -> Vec<Token> {
    lex(src).ok().unwrap().iter().map(|t| t.token).collect()
}

#[test]
fn lex_let_statement_tokens() {
    let toks = lex("let x = 1 + 2;").ok().unwrap();
    let got: Vec<Token> = toks.iter().map(|t| t.token).collect();
    assert_eq!(
        got,
        vec![Token::Let, Token::Identifier, Token::Assign, Token::IntLiteral, Token::Plus, Token::IntLiteral, Token::Semicolon]
    );
    assert_eq!(toks[1].text, "x");
    assert_eq!(toks[1].span, 4..5);
    assert_eq!(toks[6].span, 13..14);
}

#[test]
fn lex_skips_comments_and_whitespace() {
    assert_eq!(kinds("// note\n  /* block\n comment */ fn"), vec![Token::Fn]);
    assert_eq!(kinds("   \t\r\n"), vec![]);
    assert_eq!(kinds(""), vec![]);
}

#[test]
fn lex_longest_match_operators() {
    assert_eq!(
        kinds("== != <= >= && || -> = < > ! - /"),
        vec![
            Token::Equal, Token::NotEqual, Token::LessEqual, Token::GreaterEqual, Token::And, Token::Or,
            Token::Arrow, Token::Assign, Token::Less, Token::Greater, Token::Not, Token::Minus, Token::Slash
        ]
    );
}

#[test]
fn lex_numbers() {
    assert_eq!(kinds("1.5"), vec![Token::FloatLiteral]);
    assert_eq!(kinds("1."), vec![Token::IntLiteral, Token::Dot]);
    assert_eq!(kinds("12 3.25"), vec![Token::IntLiteral, Token::FloatLiteral]);
}

#[test]
fn lex_keywords_and_identifiers() {
    assert_eq!(
        kinds("fn let if else while for return struct enum match import true false null lets _x"),
        vec![
            Token::Fn, Token::Let, Token::If, Token::Else, Token::While, Token::For, Token::Return, Token::Struct,
            Token::Enum, Token::Match, Token::Import, Token::True, Token::False, Token::Null, Token::Identifier,
            Token::Identifier
        ]
    );
}

#[test]
fn lex_string_literal_keeps_quotes_and_escapes() {
    let toks = lex(r#""a\"b" x"#).ok().unwrap();
    assert_eq!(toks[0].token, Token::StringLiteral);
    assert_eq!(toks[0].text, r#""a\"b""#);
    assert_eq!(toks[1].token, Token::Identifier);
}

#[test]
fn lex_error_names_lexeme_and_offset() {
    let err = lex("let @ = 1;").err().unwrap();
    assert_eq!(err.span, 4..5);
    assert_eq!(err.message, "Invalid token: '@'");
    assert_eq!(err.to_string(), "Lexer error at position 4: Invalid token: '@'");
}

#[test]
fn lex_error_unterminated_string() {
    let err = lex("x \"abc").err().unwrap();
    assert_eq!(err.span, 2..3);
}

#[test]
fn lex_error_unterminated_comment() {
    let err = lex("a /* b").err().unwrap();
    assert_eq!(err.span, 2..4);
}

#[test]
fn lex_spans_are_byte_offsets() {
    let toks = lex("\"é\" y").ok().unwrap();
    assert_eq!(toks[0].span, 0..4);
    assert_eq!(toks[1].span, 5..6);
}

#[test]
fn lex_spans_rebuild_the_source() {
    let src = "fn main() { // entry\n  let a = 1; /* c */ }\n";
    let toks = lex(src).ok().unwrap();
    let mut rebuilt = String::new();
    let mut pos = 0;
    for t in &toks {
        let gap = &src[pos..t.span.start];
        assert!(gap.trim().is_empty() || gap.contains("//") || gap.contains("/*"));
        rebuilt.push_str(gap);
        assert_eq!(&src[t.span.clone()], t.text);
        rebuilt.push_str(&src[t.span.clone()]);
        pos = t.span.end;
    }
    rebuilt.push_str(&src[pos..]);
    assert_eq!(rebuilt, src);
}
