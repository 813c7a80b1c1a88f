//! The byte-print builtin: reads its one argument from the
//! caller-established stack slot, narrows it to its lowest byte in a
//! one-byte scratch slot, and writes that byte to file descriptor 1
//! with a write syscall.  It emits exactly one raw byte, not a decimal
//! rendering of the integer.

use vstd::prelude::*;
use crate::builtin::{help_func, help_wrap};
use crate::instructions::{iviews, lemma_iviews_push, Instruction, InstructionV, Register};

verus! {

/// The body of the byte-print builtin, inside the shared frame.
pub open spec fn print_body() -> Seq<InstructionV> {
    seq![
        InstructionV::Move("rax"@, "[rbp + 16]"@),
        InstructionV::Move("[rbp - 1]"@, "al"@),
        InstructionV::Move("rax"@, "1"@),
        InstructionV::Move("rdi"@, "rax"@),
        InstructionV::Lea("rsi"@, "[rbp - 1]"@),
        InstructionV::Move("rdx"@, "1"@),
        InstructionV::Syscall,
    ]
}

/// The full instruction stream of the byte-print builtin.
pub open spec fn print_instrs() -> Seq<InstructionV> {
    help_wrap("print"@, print_body())
}

/// Emits the byte-print builtin, callable as `print` with one
/// argument.
pub fn generate(instr: &mut Vec<Instruction>)
    ensures
        iviews(final(instr)@) == iviews(old(instr)@) + print_instrs(),
{
    broadcast use lemma_iviews_push;

    let content = vec![
        Instruction::Move(Register::RAX.to_string(), "[rbp + 16]".to_owned()),
        Instruction::Move("[rbp - 1]".to_owned(), "al".to_owned()),
        Instruction::Move(Register::RAX.to_string(), "1".to_owned()),
        Instruction::Move(Register::RDI.to_string(), Register::RAX.to_string()),
        Instruction::Lea(Register::RSI.to_string(), "[rbp - 1]".to_owned()),
        Instruction::Move(Register::RDX.to_string(), "1".to_owned()),
        Instruction::Syscall,
    ];
    proof {
        assert(iviews(content@) =~= print_body());
    }
    help_func("print", instr, content);
}

} // verus!
