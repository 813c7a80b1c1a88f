use facompiler::ir::{IRComparison, IRExpression, IRNode, IRType, IRValue};
use facompiler::lexer::{Comparisons, Primitives, Token, TokenStream};
use facompiler::parse_inner::inner_parse;

#[test]
fn example_1() {
    let tokens = vec![
        Token::Primitive(Primitives::Number),
        Token::Identifier("test".to_owned()),
        Token::Assignment,
        Token::ValueNumber(12),
        Token::Semicolon,
    ];

    let expected = vec![vec![
        IRNode::DeclareVariable("test".to_owned(), IRType::Number),
        IRNode::Assignment("test".to_owned(), IRExpression::Value(IRValue::Number(12))),
    ]];

    assert_eq!(Some(expected), inner_parse(&mut TokenStream::new(&tokens)));
}

#[test]
fn example_2() {
    let tokens = vec![
        Token::Identifier("test".to_owned()),
        Token::OpenParan,
        Token::ValueNumber(1),
        Token::Comma,
        Token::ValueNumber(5),
        Token::ClosingParan,
        Token::Semicolon,
    ];

    let expected = vec![vec![IRNode::SingleExpression(IRExpression::Call(
        "test".to_owned(),
        vec![
            IRExpression::Value(IRValue::Number(1)),
            IRExpression::Value(IRValue::Number(5)),
        ],
    ))]];

    assert_eq!(Some(expected), inner_parse(&mut TokenStream::new(&tokens)));
}

#[test]
fn parse_return_without_value() {
    let tokens = vec![Token::Return, Token::Semicolon];

    let expected = vec![vec![IRNode::Return(None)]];

    assert_eq!(Some(expected), inner_parse(&mut TokenStream::new(&tokens)));
}

#[test]
fn parse_return_of_variable() {
    let tokens = vec![
        Token::Return,
        Token::Identifier("n".to_owned()),
        Token::Semicolon,
    ];

    let expected = vec![vec![IRNode::Return(Some(IRExpression::Variable(
        "n".to_owned(),
    )))]];

    assert_eq!(Some(expected), inner_parse(&mut TokenStream::new(&tokens)));
}

#[test]
fn parse_while_loop() {
    let tokens = vec![
        Token::While,
        Token::OpenParan,
        Token::Identifier("x".to_owned()),
        Token::Comparison(Comparisons::GreaterThan),
        Token::ValueNumber(0),
        Token::ClosingParan,
        Token::OpenCurly,
        Token::Identifier("x".to_owned()),
        Token::Assignment,
        Token::Identifier("x".to_owned()),
        Token::Minus,
        Token::ValueNumber(1),
        Token::Semicolon,
        Token::ClosingCurly,
        Token::ClosingCurly,
    ];

    let expected = vec![vec![IRNode::Loop(
        IRComparison::GreaterThan(
            IRExpression::Variable("x".to_owned()),
            IRExpression::Value(IRValue::Number(0)),
        ),
        vec![vec![IRNode::Assignment(
            "x".to_owned(),
            IRExpression::Operation(
                facompiler::ir::IROperation::Sub,
                vec![
                    IRExpression::Variable("x".to_owned()),
                    IRExpression::Value(IRValue::Number(1)),
                ],
            ),
        )]],
    )]];

    assert_eq!(Some(expected), inner_parse(&mut TokenStream::new(&tokens)));
}

#[test]
fn parse_if_statement() {
    let tokens = vec![
        Token::If,
        Token::OpenParan,
        Token::Identifier("x".to_owned()),
        Token::Comparison(Comparisons::Equal),
        Token::ValueNumber(1),
        Token::ClosingParan,
        Token::OpenCurly,
        Token::Builtin(facompiler::lexer::BuiltIns::Print),
        Token::OpenParan,
        Token::Identifier("x".to_owned()),
        Token::ClosingParan,
        Token::Semicolon,
        Token::ClosingCurly,
        Token::ClosingCurly,
    ];

    let expected = vec![vec![IRNode::Conditional(
        IRComparison::Equals(
            IRExpression::Variable("x".to_owned()),
            IRExpression::Value(IRValue::Number(1)),
        ),
        vec![vec![IRNode::SingleExpression(IRExpression::Call(
            "print".to_owned(),
            vec![IRExpression::Variable("x".to_owned())],
        ))]],
    )]];

    assert_eq!(Some(expected), inner_parse(&mut TokenStream::new(&tokens)));
}
