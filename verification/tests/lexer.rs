use facompiler::lexer::{tokenize, BuiltIns, Comparisons, Primitives, Token, TokenStream};

#[test]
fn tokenize_declaration_and_assignment() {
    let tokens = tokenize("number x ;\nx = 1 + 2 ;\n".to_string());
    let expected = vec![
        Token::Primitive(Primitives::Number),
        Token::Identifier("x".to_owned()),
        Token::Semicolon,
        Token::Identifier("x".to_owned()),
        Token::Assignment,
        Token::ValueNumber(1),
        Token::Plus,
        Token::ValueNumber(2),
        Token::Semicolon,
    ];
    assert_eq!(expected, tokens);
}

#[test]
fn tokenize_keywords_and_punctuation() {
    let tokens = tokenize("func f(n: number) -> number {\nreturn n;\n}\n".to_string());
    let expected = vec![
        Token::Function,
        Token::Identifier("f".to_owned()),
        Token::OpenParan,
        Token::Identifier("n".to_owned()),
        Token::Colon,
        Token::Primitive(Primitives::Number),
        Token::ClosingParan,
        Token::Arrow,
        Token::Primitive(Primitives::Number),
        Token::OpenCurly,
        Token::Return,
        Token::Identifier("n".to_owned()),
        Token::Semicolon,
        Token::ClosingCurly,
    ];
    assert_eq!(expected, tokens);
}

#[test]
fn tokenize_control_flow_and_builtins() {
    let tokens = tokenize("if ( x == 1 ) { print ( x ) ; } while ( x > 0 ) { }\n".to_string());
    let expected = vec![
        Token::If,
        Token::OpenParan,
        Token::Identifier("x".to_owned()),
        Token::Comparison(Comparisons::Equal),
        Token::ValueNumber(1),
        Token::ClosingParan,
        Token::OpenCurly,
        Token::Builtin(BuiltIns::Print),
        Token::OpenParan,
        Token::Identifier("x".to_owned()),
        Token::ClosingParan,
        Token::Semicolon,
        Token::ClosingCurly,
        Token::While,
        Token::OpenParan,
        Token::Identifier("x".to_owned()),
        Token::Comparison(Comparisons::GreaterThan),
        Token::ValueNumber(0),
        Token::ClosingParan,
        Token::OpenCurly,
        Token::ClosingCurly,
    ];
    assert_eq!(expected, tokens);
}

// Text after the last separator contributes no token.
#[test]
fn trailing_text_without_separator_is_dropped() {
    let tokens = tokenize("abc".to_string());
    let expected: Vec<Token> = vec![];
    assert_eq!(expected, tokens);
}

// A word too large for the 64-bit value type is an identifier, not a
// number literal.
#[test]
fn oversized_number_becomes_identifier() {
    let tokens = tokenize("99999999999999999999 ;".to_string());
    let expected = vec![
        Token::Identifier("99999999999999999999".to_owned()),
        Token::Semicolon,
    ];
    assert_eq!(expected, tokens);
}

#[test]
fn number_with_leading_plus_sign() {
    let tokens = tokenize("+42 ;".to_string());
    let expected = vec![Token::ValueNumber(42), Token::Semicolon];
    assert_eq!(expected, tokens);
}

#[test]
fn largest_number_literal() {
    let tokens = tokenize("18446744073709551615 ;".to_string());
    let expected = vec![Token::ValueNumber(u64::MAX), Token::Semicolon];
    assert_eq!(expected, tokens);
}

#[test]
fn empty_source_has_no_tokens() {
    let expected: Vec<Token> = vec![];
    assert_eq!(expected, tokenize(String::new()));
}

#[test]
fn token_stream_peek_and_bump() {
    let tokens = vec![Token::If, Token::OpenParan];
    let mut s = TokenStream::new(&tokens);
    assert_eq!(Some(&Token::If), s.peek());
    s.bump();
    assert_eq!(Some(&Token::OpenParan), s.peek());
    s.bump();
    assert_eq!(None, s.peek());
}
