//! A compiler backend for a small imperative language: it lowers a typed,
//! tree-shaped intermediate representation into textual assembly for a
//! 64-bit stack-machine-style target, together with the frontend that
//! builds the representation from source text and a constant-folding pass.

pub mod instructions;
pub mod decimal;
pub mod errors;
pub mod ir;
pub mod variables;
pub mod expression;
pub mod conditionals;
pub mod function;
pub mod builtin;
pub mod traits;
pub mod generate;
pub mod optimizer;
pub mod lexer;
pub mod parse_expression;
pub mod parse_passed_args;
pub mod parse_arguments;
pub mod parse_primitive;
pub mod parse_identifier;
pub mod parse_builtin;
pub mod parse_if;
pub mod parse_while;
pub mod parse_inner;
pub mod frontend;
pub mod semantics;
