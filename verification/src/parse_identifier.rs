//! Parses a statement that starts with an identifier: an assignment
//! or a call evaluated for effect.

use vstd::prelude::*;
use crate::ir::{IRExpression, IRNode};
use crate::lexer::{Token, TokenStream};
use crate::parse_expression::parse_expression;
use crate::parse_passed_args;

verus! {

/// Parses what follows the identifier `name`: `= expression` or a
/// parenthesised argument list.
pub fn parse(name: &str, s: &mut TokenStream) -> (r: Option<IRNode>)
    requires
        old(s).wf(),
    ensures
        final(s).wf(),
        final(s)@.len() <= old(s)@.len(),
{
    let next_token = match s.peek() {
        Some(n) => n,
        None => {
            return None;
        },
    };
    match next_token {
        Token::Assignment => {
            s.bump();
            match parse_expression(s) {
                Some(exp) => Some(IRNode::Assignment(name.to_owned(), exp)),
                None => None,
            }
        },
        Token::OpenParan => {
            let inner = match parse_passed_args::parse(s) {
                Some(i) => i,
                None => {
                    return None;
                },
            };
            Some(IRNode::SingleExpression(IRExpression::Call(name.to_owned(), inner)))
        },
        _ => None,
    }
}

} // verus!
