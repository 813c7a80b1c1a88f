//! Parses a variable declaration introduced by a type keyword.  The
//! identifier is left in the stream, so a following assignment is
//! parsed as its own statement.

use vstd::prelude::*;
use crate::ir::{IRNode, IRType};
use crate::lexer::{Primitives, Token, TokenStream};

verus! {

/// Parses `number x` into a declaration of `x`.
pub fn parse(prim: &Primitives, s: &mut TokenStream) -> (r: Option<IRNode>)
    requires
        old(s).wf(),
    ensures
        final(s).wf(),
        final(s)@.len() <= old(s)@.len(),
{
    let ir_type = match prim {
        Primitives::Number => IRType::Number,
    };
    match s.peek() {
        Some(Token::Identifier(name)) => Some(IRNode::DeclareVariable(name.clone(), ir_type)),
        _ => None,
    }
}

} // verus!
