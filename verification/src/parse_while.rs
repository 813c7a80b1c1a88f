//! Parses a loop: a parenthesised comparison followed by a
//! braced body.

use vstd::prelude::*;
use crate::ir::{IRComparison, IRNode};
use crate::lexer::{Comparisons, Token, TokenStream};
use crate::parse_expression::parse_expression;
use crate::parse_inner::inner_parse;

verus! {

/// Parses `( expr cmp expr ) { body }` into a loop node.
pub fn parse(s: &mut TokenStream) -> (r: Option<IRNode>)
    requires
        old(s).wf(),
    ensures
        final(s).wf(),
        final(s)@.len() <= old(s)@.len(),
    decreases old(s)@.len(), 0nat,
{
    match s.peek() {
        Some(Token::OpenParan) => {
            s.bump();
        },
        _ => {
            return None;
        },
    }
    let first_part = match parse_expression(s) {
        Some(f) => f,
        None => {
            return None;
        },
    };
    let comparison_token = match s.peek() {
        Some(t) => t,
        None => {
            return None;
        },
    };
    s.bump();
    let second_part = match parse_expression(s) {
        Some(f) => f,
        None => {
            return None;
        },
    };
    let comp = match comparison_token {
        Token::Comparison(comp) => match comp {
            Comparisons::Equal => IRComparison::Equals(first_part, second_part),
            Comparisons::GreaterThan => IRComparison::GreaterThan(first_part, second_part),
        },
        _ => {
            return None;
        },
    };
    match s.peek() {
        Some(Token::ClosingParan) => {
            s.bump();
        },
        _ => {
            return None;
        },
    }
    match s.peek() {
        Some(Token::OpenCurly) => {
            s.bump();
        },
        _ => {
            return None;
        },
    }
    let inner_scope = match inner_parse(s) {
        Some(i) => i,
        None => {
            return None;
        },
    };
    Some(IRNode::Loop(comp, inner_scope))
}

} // verus!
