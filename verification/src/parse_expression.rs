//! The expression parser: literals, variable references, right-nested
//! binary operations, and calls with literal arguments.

use vstd::prelude::*;
use crate::ir::{IRExpression, IROperation, IRValue};
use crate::lexer::{Token, TokenStream};
use crate::parse_passed_args;

verus! {

/// Parses one token that can stand alone in an expression.
fn parse_single(token: &Token) -> (r: Option<IRExpression>)
{
    match token {
        Token::ValueNumber(value) => Some(IRExpression::Value(IRValue::Number(*value))),
        Token::Identifier(value) => Some(IRExpression::Variable(value.clone())),
        _ => None,
    }
}

/// Parses an expression: a single value or variable, a binary
/// operation continuing to the right, or a call.
pub fn parse_expression(s: &mut TokenStream) -> (r: Option<IRExpression>)
    requires
        old(s).wf(),
    ensures
        final(s).wf(),
        final(s)@.len() <= old(s)@.len(),
    decreases old(s)@.len(),
{
    let first = match s.peek() {
        Some(t) => t,
        None => {
            return None;
        },
    };
    s.bump();
    let second = match s.peek() {
        Some(t) => t,
        None => {
            return None;
        },
    };
    match second {
        Token::Plus | Token::Minus | Token::Multiply => {
            let op = match second {
                Token::Plus => IROperation::Add,
                Token::Minus => IROperation::Sub,
                Token::Multiply => IROperation::Multiply,
                _ => {
                    return None;
                },
            };
            s.bump();
            let first_part = match parse_single(first) {
                Some(f) => f,
                None => {
                    return None;
                },
            };
            let other_part = match parse_expression(s) {
                Some(o) => o,
                None => {
                    return None;
                },
            };
            let mut operands: Vec<IRExpression> = Vec::new();
            operands.push(first_part);
            operands.push(other_part);
            Some(IRExpression::Operation(op, operands))
        },
        Token::Comparison(_) => parse_single(first),
        Token::Semicolon | Token::ClosingParan | Token::Comma => parse_single(first),
        Token::OpenParan => {
            let name = match first {
                Token::Identifier(name) => name.clone(),
                _ => {
                    return None;
                },
            };
            let inner = match parse_passed_args::parse(s) {
                Some(i) => i,
                None => {
                    return None;
                },
            };
            Some(IRExpression::Call(name, inner))
        },
        _ => None,
    }
}

} // verus!
