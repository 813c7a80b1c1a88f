use facompiler::ir::{IRParameter, IRType};
use facompiler::lexer::{Primitives, Token, TokenStream};
use facompiler::parse_arguments;

#[test]
fn no_params() {
    let tokens = vec![Token::ClosingParan, Token::OpenCurly];

    let expected: Vec<IRParameter> = vec![];

    assert_eq!(expected, parse_arguments::parse(&mut TokenStream::new(&tokens)));
}

#[test]
fn parse_arguments_one_param() {
    let tokens = vec![
        Token::Identifier("test1".to_owned()),
        Token::Colon,
        Token::Primitive(Primitives::Number),
        Token::ClosingParan,
        Token::OpenCurly,
    ];

    let expected = vec![IRParameter {
        name: "test1".to_owned(),
        param_type: IRType::Number,
    }];

    assert_eq!(expected, parse_arguments::parse(&mut TokenStream::new(&tokens)));
}

#[test]
fn parse_arguments_two_params() {
    let tokens = vec![
        Token::Identifier("test1".to_owned()),
        Token::Colon,
        Token::Primitive(Primitives::Number),
        Token::Comma,
        Token::Identifier("test2".to_owned()),
        Token::Colon,
        Token::Primitive(Primitives::Number),
        Token::ClosingParan,
        Token::OpenCurly,
    ];

    let expected = vec![
        IRParameter {
            name: "test1".to_owned(),
            param_type: IRType::Number,
        },
        IRParameter {
            name: "test2".to_owned(),
            param_type: IRType::Number,
        },
    ];

    assert_eq!(expected, parse_arguments::parse(&mut TokenStream::new(&tokens)));
}
