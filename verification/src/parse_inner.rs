//! Parses the statements of a braced body, grouping them into
//! statement-lists: a semicolon or a control-flow statement closes
//! the current list.

use vstd::prelude::*;
use crate::ir::{IRExpression, IRNode};
use crate::lexer::{Token, TokenStream};
use crate::{parse_builtin, parse_identifier, parse_if, parse_primitive, parse_while};

verus! {

/// Parses statements up to the closing brace (or the end of the
/// stream) into a sequence of statement-lists.
#[verifier::loop_isolation(false)]
pub fn inner_parse(s: &mut TokenStream) -> (r: Option<Vec<Vec<IRNode>>>)
    requires
        old(s).wf(),
    ensures
        final(s).wf(),
        final(s)@.len() <= old(s)@.len(),
    decreases old(s)@.len(), 1nat,
{
    let mut result: Vec<Vec<IRNode>> = Vec::new();
    let mut current_statement: Vec<IRNode> = Vec::new();
    loop
        invariant
            s.wf(),
            s@.len() <= old(s)@.len(),
        decreases s@.len(),
    {
        let token = match s.peek() {
            Some(t) => t,
            None => {
                break;
            },
        };
        s.bump();
        match token {
            Token::Primitive(prim) => {
                let parsed = match parse_primitive::parse(prim, s) {
                    Some(p) => p,
                    None => {
                        return None;
                    },
                };
                current_statement.push(parsed);
            },
            Token::Identifier(name) => {
                let parsed = match parse_identifier::parse(name.as_str(), s) {
                    Some(p) => p,
                    None => {
                        return None;
                    },
                };
                current_statement.push(parsed);
            },
            Token::Builtin(builtin) => {
                let parsed = match parse_builtin::parse(builtin, s) {
                    Some(p) => p,
                    None => {
                        return None;
                    },
                };
                current_statement.push(IRNode::SingleExpression(parsed));
            },
            Token::Semicolon => {
                result.push(current_statement);
                current_statement = Vec::new();
            },
            Token::If => {
                let parsed = match parse_if::parse(s) {
                    Some(p) => p,
                    None => {
                        return None;
                    },
                };
                current_statement.push(parsed);
                result.push(current_statement);
                current_statement = Vec::new();
            },
            Token::While => {
                let parsed = match parse_while::parse(s) {
                    Some(p) => p,
                    None => {
                        return None;
                    },
                };
                current_statement.push(parsed);
                result.push(current_statement);
                current_statement = Vec::new();
            },
            Token::Return => {
                let ret_exp = match s.peek() {
                    Some(Token::Identifier(name)) => {
                        let e = Some(IRExpression::Variable(name.clone()));
                        s.bump();
                        e
                    },
                    Some(Token::Semicolon) => None,
                    _ => {
                        return None;
                    },
                };
                current_statement.push(IRNode::Return(ret_exp));
            },
            Token::ClosingCurly => {
                return Some(result);
            },
            _ => {
                return None;
            },
        }
    }
    Some(result)
}

} // verus!
