use facompiler::ir::{IRExpression, IROperation, IRValue};
use facompiler::lexer::{Token, TokenStream};
use facompiler::parse_expression::parse_expression;

#[test]
fn simple_value() {
    let tokens = vec![Token::ValueNumber(1), Token::Semicolon];
    let expected = IRExpression::Value(IRValue::Number(1));

    assert_eq!(
        Some(expected),
        parse_expression(&mut TokenStream::new(&tokens))
    );
}

#[test]
fn simple_variable() {
    let tokens = vec![Token::Identifier("test".to_owned()), Token::Semicolon];
    let expected = IRExpression::Variable("test".to_owned());

    assert_eq!(
        Some(expected),
        parse_expression(&mut TokenStream::new(&tokens))
    );
}

#[test]
fn simple_expression() {
    let tokens = vec![
        Token::ValueNumber(1),
        Token::Plus,
        Token::ValueNumber(1),
        Token::Semicolon,
    ];
    let expected = IRExpression::Operation(
        IROperation::Add,
        vec![
            IRExpression::Value(IRValue::Number(1)),
            IRExpression::Value(IRValue::Number(1)),
        ],
    );

    assert_eq!(
        Some(expected),
        parse_expression(&mut TokenStream::new(&tokens))
    );
}

#[test]
fn complex_expression() {
    let tokens = vec![
        Token::ValueNumber(1),
        Token::Plus,
        Token::ValueNumber(1),
        Token::Plus,
        Token::ValueNumber(1),
        Token::Semicolon,
    ];
    let expected = IRExpression::Operation(
        IROperation::Add,
        vec![
            IRExpression::Value(IRValue::Number(1)),
            IRExpression::Operation(
                IROperation::Add,
                vec![
                    IRExpression::Value(IRValue::Number(1)),
                    IRExpression::Value(IRValue::Number(1)),
                ],
            ),
        ],
    );

    assert_eq!(
        Some(expected),
        parse_expression(&mut TokenStream::new(&tokens))
    );
}

#[test]
fn parse_call_no_param() {
    let tokens = vec![
        Token::Identifier("test_func".to_owned()),
        Token::OpenParan,
        Token::ClosingParan,
        Token::Semicolon,
    ];

    let expected = IRExpression::Call("test_func".to_owned(), vec![]);

    assert_eq!(
        Some(expected),
        parse_expression(&mut TokenStream::new(&tokens))
    );
}

#[test]
fn parse_call_one_param() {
    let tokens = vec![
        Token::Identifier("test_func".to_owned()),
        Token::OpenParan,
        Token::ValueNumber(1),
        Token::ClosingParan,
        Token::Semicolon,
    ];

    let expected = IRExpression::Call(
        "test_func".to_owned(),
        vec![IRExpression::Value(IRValue::Number(1))],
    );

    assert_eq!(
        Some(expected),
        parse_expression(&mut TokenStream::new(&tokens))
    );
}

#[test]
fn parse_call_two_params() {
    let tokens = vec![
        Token::Identifier("test_func".to_owned()),
        Token::OpenParan,
        Token::ValueNumber(1),
        Token::Comma,
        Token::ValueNumber(2),
        Token::ClosingParan,
        Token::Semicolon,
    ];

    let expected = IRExpression::Call(
        "test_func".to_owned(),
        vec![
            IRExpression::Value(IRValue::Number(1)),
            IRExpression::Value(IRValue::Number(2)),
        ],
    );

    assert_eq!(
        Some(expected),
        parse_expression(&mut TokenStream::new(&tokens))
    );
}
