//! The failures that code generation can surface.  Any of these aborts
//! generation for the enclosing function atomically; no partial
//! instruction sequence for that function is ever returned.

use vstd::prelude::*;
use crate::ir::IROperation;

verus! {

/// A failure while generating code for one function.
#[derive(Debug, PartialEq)]
pub enum CodegenError {
    /// An expression or assignment references a name absent from the
    /// function's stack layout.
    UndeclaredVariable(String),
    /// The same name is declared twice within one function's flat
    /// offset space (parameters and locals share one namespace).
    DuplicateDeclaration(String),
    /// An operation whose kind has no lowering rule (multiplication
    /// and division in the current design).
    UnsupportedOperation(IROperation),
    /// A call site whose argument count does not match the signature
    /// of the builtin it names.
    MalformedCall,
}

/// Specification-level mirror of [`CodegenError`].
#[verifier::ext_equal]
pub enum ErrV {
    UndeclaredVariable(Seq<char>),
    DuplicateDeclaration(Seq<char>),
    UnsupportedOperation(IROperation),
    MalformedCall,
}

impl View for CodegenError {
    type V = ErrV;

    open spec fn view(&self) -> ErrV {
        match self {
            CodegenError::UndeclaredVariable(name) => ErrV::UndeclaredVariable(name@),
            CodegenError::DuplicateDeclaration(name) => ErrV::DuplicateDeclaration(name@),
            CodegenError::UnsupportedOperation(op) => ErrV::UnsupportedOperation(*op),
            CodegenError::MalformedCall => ErrV::MalformedCall,
        }
    }
}


/// A code-generation failure bound to the function it occurred in.
#[derive(Debug, PartialEq)]
pub struct CompileError {
    /// The name of the function whose generation was aborted.
    pub function: String,
    /// What went wrong inside it.
    pub error: CodegenError,
}

/// Specification-level mirror of [`CompileError`].
#[verifier::ext_equal]
pub struct CompileErrV {
    pub function: Seq<char>,
    pub error: ErrV,
}

impl View for CompileError {
    type V = CompileErrV;

    open spec fn view(&self) -> CompileErrV {
        CompileErrV { function: self.function@, error: self.error@ }
    }
}

} // verus!
