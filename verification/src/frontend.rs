//! The frontend entry point: source text to intermediate
//! representation.

use vstd::prelude::*;
use crate::ir::{unique_names, IRFunction};
use crate::lexer::tokenize;

verus! {

/// Tokenizes and parses a whole source file.  Returns `None` when the
/// text is not a sequence of well-formed function definitions.
pub fn parse(content: String) -> (r: Option<Vec<IRFunction>>)
    ensures
        match r {
            Some(funcs) => unique_names(funcs@),
            None => true,
        },
{
    let tokens = tokenize(content);
    crate::ir::parse(tokens.as_slice())
}

} // verus!
