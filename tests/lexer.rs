use toylang::text::decimal_string;
use toylang::token::TokenType;
use toylang::tokenizer::Tokenizer;

fn kinds(src: &str) -> Vec<(TokenType, String)> {
    let mut t = Tokenizer::new(src.to_string());
    let mut out = Vec::new();
    loop {
        let tok = t.next_token();
        let done = tok.token_type == TokenType::EOF;
        out.push((tok.token_type, tok.value));
        if done {
            break;
        }
    }
    out
}

#[test]
fn lexes_a_declaration() {
    let toks = kinds("var x: int = 2 + 3;");
    let expected = vec![
        (TokenType::Var, "var"),
        (TokenType::Identifier, "x"),
        (TokenType::Colon, ":"),
        (TokenType::Identifier, "int"),
        (TokenType::Assign, "="),
        (TokenType::Integer, "2"),
        (TokenType::Plus, "+"),
        (TokenType::Integer, "3"),
        (TokenType::Semicolon, ";"),
        (TokenType::EOF, ""),
    ];
    assert_eq!(toks.len(), expected.len());
    for (got, want) in toks.iter().zip(expected.iter()) {
        assert_eq!(got.0, want.0);
        assert_eq!(got.1, want.1);
    }
}

#[test]
fn lexes_keywords_and_words() {
    let toks = kinds("func if else return const var foo_1 iffy");
    let want = [
        TokenType::Func,
        TokenType::If,
        TokenType::Else,
        TokenType::Return,
        TokenType::Const,
        TokenType::Var,
        TokenType::Identifier,
        TokenType::Identifier,
        TokenType::EOF,
    ];
    for (i, k) in want.iter().enumerate() {
        assert_eq!(toks[i].0, *k);
    }
    assert_eq!(toks[6].1, "foo_1");
    assert_eq!(toks[7].1, "iffy");
}

#[test]
fn lexes_two_character_operators() {
    let toks = kinds("a <= b >= c == d && e || f < g > h");
    let ops: Vec<TokenType> = toks.iter().map(|t| t.0).filter(|k| *k != TokenType::Identifier).collect();
    assert_eq!(
        ops,
        vec![
            TokenType::LTEQ,
            TokenType::GTEQ,
            TokenType::EQ,
            TokenType::And,
            TokenType::Or,
            TokenType::LT,
            TokenType::GT,
            TokenType::EOF
        ]
    );
    assert_eq!(toks[1].1, "<=");
}

#[test]
fn lexes_string_literal_without_quotes() {
    let toks = kinds("print(\"hi there\", 12);");
    assert_eq!(toks[2].0, TokenType::String);
    assert_eq!(toks[2].1, "hi there");
    assert_eq!(toks[4].0, TokenType::Integer);
    assert_eq!(toks[4].1, "12");
}

#[test]
fn unterminated_string_runs_to_end() {
    let toks = kinds("\"abc");
    assert_eq!(toks[0].0, TokenType::String);
    assert_eq!(toks[0].1, "abc");
    assert_eq!(toks[1].0, TokenType::EOF);
}

#[test]
fn skips_newlines_and_tabs() {
    let toks = kinds("\n\t x\n;\r\n");
    assert_eq!(toks.len(), 3);
    assert_eq!(toks[0].1, "x");
    assert_eq!(toks[1].0, TokenType::Semicolon);
}

#[test]
fn eof_repeats() {
    let mut t = Tokenizer::new(String::new());
    assert_eq!(t.next_token().token_type, TokenType::EOF);
    assert_eq!(t.next_token().token_type, TokenType::EOF);
    let mut t = Tokenizer::new("x".to_string());
    assert_eq!(t.next_token().token_type, TokenType::Identifier);
    assert_eq!(t.next_token().token_type, TokenType::EOF);
    assert_eq!(t.next_token().token_type, TokenType::EOF);
}

#[test]
fn digit_and_letter_classes() {
    assert!(Tokenizer::is_number('7'));
    assert!(!Tokenizer::is_number('a'));
    assert!(Tokenizer::is_letter('Q'));
    assert!(!Tokenizer::is_letter('_'));
}

#[test]
fn text_conversions() {
    assert_eq!(decimal_string(0), "0");
    assert_eq!(decimal_string(120), "120");
    assert_eq!(decimal_string(u64::MAX), "18446744073709551615");
    let toks = kinds("\"héllo\" wörd");
    assert_eq!(toks[0].0, TokenType::String);
    assert_eq!(toks[0].1, "héllo");
    assert_eq!(toks[1].1, "w");
}
