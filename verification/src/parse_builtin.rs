//! Parses a call of a builtin function.

use vstd::prelude::*;
use crate::ir::IRExpression;
use crate::lexer::{BuiltIns, Token, TokenStream};
use crate::parse_expression::parse_expression;

verus! {

/// Parses the parenthesised single argument of a builtin call.
pub fn parse(builtin: &BuiltIns, s: &mut TokenStream) -> (r: Option<IRExpression>)
    requires
        old(s).wf(),
    ensures
        final(s).wf(),
        final(s)@.len() <= old(s)@.len(),
{
    let next_token = match s.peek() {
        Some(t) => t,
        None => {
            return None;
        },
    };
    match next_token {
        Token::OpenParan => {
            s.bump();
            let inner = match parse_expression(s) {
                Some(i) => i,
                None => {
                    return None;
                },
            };
            match s.peek() {
                Some(_) => {
                    s.bump();
                },
                None => {
                    return None;
                },
            }
            let func_name = match builtin {
                BuiltIns::Print => "print".to_owned(),
            };
            let mut args: Vec<IRExpression> = Vec::new();
            args.push(inner);
            Some(IRExpression::Call(func_name, args))
        },
        _ => None,
    }
}

} // verus!
