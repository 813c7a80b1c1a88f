//! Parses the declared parameter list of a function header.

use vstd::prelude::*;
use crate::ir::{IRParameter, IRType};
use crate::lexer::{Primitives, Token, TokenStream};

verus! {

/// Parses `name: type, name: type, ...` up to the closing parenthesis,
/// which is left in the stream.
#[verifier::loop_isolation(false)]
pub fn parse(s: &mut TokenStream) -> (r: Vec<IRParameter>)
    requires
        old(s).wf(),
    ensures
        final(s).wf(),
        final(s)@.len() <= old(s)@.len(),
{
    let mut result: Vec<IRParameter> = Vec::new();
    loop
        invariant
            s.wf(),
            s@.len() <= old(s)@.len(),
        decreases s@.len(),
    {
        let peeked = match s.peek() {
            Some(t) => t,
            None => {
                break;
            },
        };
        if let Token::ClosingParan = peeked {
            break;
        }
        s.bump();
        match peeked {
            Token::Identifier(name) => {
                match s.peek() {
                    Some(Token::Colon) => {
                        s.bump();
                    },
                    _ => {
                        break;
                    },
                }
                let param_type = match s.peek() {
                    Some(Token::Primitive(prim)) => {
                        s.bump();
                        match prim {
                            Primitives::Number => IRType::Number,
                        }
                    },
                    _ => {
                        break;
                    },
                };
                result.push(IRParameter { name: name.clone(), param_type });
            },
            Token::Comma => {},
            _ => {
                break;
            },
        }
    }
    result
}

} // verus!
