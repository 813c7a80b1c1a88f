//! The interface a target architecture offers: turning a parsed
//! program into its assembly text.

use vstd::prelude::*;
use crate::errors::CompileError;
use crate::generate::fits_program;
use crate::ir::{func_seq_view, IRFunction};

verus! {

/// A code-generation target.
pub trait Arch {
    /// Renders the whole program to assembly text, or reports the
    /// first function whose generation failed.
    fn generate_asm_string(ir: Vec<IRFunction>) -> Result<String, CompileError>
        requires
            fits_program(func_seq_view(ir@)),
    ;
}

} // verus!
