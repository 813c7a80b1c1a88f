//! Parses the parenthesised argument list of a call site.  Only
//! literal arguments are supported; anything else is rejected.

use vstd::prelude::*;
use crate::ir::{IRExpression, IRValue};
use crate::lexer::{Token, TokenStream};

verus! {

/// Parses `( literal, literal, ... )` into the argument expressions.
#[verifier::loop_isolation(false)]
pub fn parse(s: &mut TokenStream) -> (r: Option<Vec<IRExpression>>)
    requires
        old(s).wf(),
    ensures
        final(s).wf(),
        final(s)@.len() <= old(s)@.len(),
{
    let mut result: Vec<IRExpression> = Vec::new();
    match s.peek() {
        Some(Token::OpenParan) => {},
        _ => {
            return None;
        },
    }
    s.bump();
    loop
        invariant
            s.wf(),
            s@.len() <= old(s)@.len(),
        decreases s@.len(),
    {
        let peeked = match s.peek() {
            Some(t) => t,
            None => {
                break;
            },
        };
        match peeked {
            Token::ClosingParan => {
                s.bump();
                break;
            },
            Token::ValueNumber(value) => {
                s.bump();
                result.push(IRExpression::Value(IRValue::Number(*value)));
            },
            Token::Comma => {
                s.bump();
            },
            _ => {
                return None;
            },
        }
    }
    Some(result)
}

} // verus!
