//! The builtin runtime generator: emits the compiler-provided callees
//! ahead of user code.  Every builtin is wrapped in the same
//! frame-shaped prologue and epilogue as a user function, so the
//! ordinary call lowering reaches it with no special-casing.

pub mod print;

use vstd::prelude::*;
use crate::instructions::{
    iviews, lemma_iviews_add, lemma_iviews_props, lemma_iviews_push, Instruction, InstructionV,
    Register,
};

verus! {

/// A builtin's frame: its label, the saved frame pointer and new frame
/// base, the builtin's own instructions, and the restoring epilogue
/// with the return.
pub open spec fn help_wrap(name: Seq<char>, content: Seq<InstructionV>) -> Seq<InstructionV> {
    seq![
        InstructionV::Label(name),
        InstructionV::Push("rbp"@),
        InstructionV::Move("rbp"@, "rsp"@),
    ] + content + seq![InstructionV::Pop("rbp"@), InstructionV::Return]
}

/// Appends `content` to `instr`, wrapped in the frame that every
/// builtin shares with user functions.
#[verifier::loop_isolation(false)]
pub fn help_func(name: &str, instr: &mut Vec<Instruction>, content: Vec<Instruction>)
    ensures
        iviews(final(instr)@) == iviews(old(instr)@) + help_wrap(name@, iviews(content@)),
{
    broadcast use lemma_iviews_push, lemma_iviews_add, lemma_iviews_props;

    let mut content = content;
    let ghost full_content = iviews(content@);
    instr.push(Instruction::Label(name.to_owned()));
    instr.push(Instruction::Push(Register::RBP.to_string()));
    instr.push(Instruction::Move(Register::RBP.to_string(), Register::RSP.to_string()));
    let ghost pre = iviews(instr@);
    let total = content.len();
    let mut moved_count: usize = 0;
    while content.len() > 0
        invariant
            moved_count <= total,
            moved_count + content@.len() == full_content.len(),
            total == full_content.len(),
            iviews(content@) == full_content.skip(moved_count as int),
            iviews(instr@) == pre + full_content.take(moved_count as int),
        decreases content@.len(),
    {
        let ghost prev_content = content@;
        let item = content.remove(0);
        instr.push(item);
        proof {
            assert(content@ =~= prev_content.skip(1));
            assert(full_content.skip(moved_count as int)[0] == full_content[moved_count as int]);
            assert forall|k: int| 0 <= k < content@.len() implies iviews(content@)[k]
                == full_content.skip(moved_count as int + 1)[k] by {
                assert(iviews(content@)[k] == content@[k]@);
                assert(content@[k] == prev_content[k + 1]);
                assert(iviews(prev_content)[k + 1] == prev_content[k + 1]@);
                assert(full_content.skip(moved_count as int)[k + 1] == full_content[moved_count
                    as int + 1 + k]);
            }
            assert(iviews(content@) =~= full_content.skip(moved_count as int + 1));
            assert(iviews(instr@) =~= pre + full_content.take(moved_count as int + 1));
        }
        moved_count = moved_count + 1;
    }
    proof {
        assert(full_content.take(moved_count as int) =~= full_content);
    }
    instr.push(Instruction::Pop(Register::RBP.to_string()));
    instr.push(Instruction::Return);
    proof {
        assert(iviews(instr@) =~= iviews(old(instr)@) + help_wrap(name@, full_content));
    }
}

/// The instruction stream of every builtin, in emission order.
pub open spec fn builtins_instrs() -> Seq<InstructionV> {
    print::print_instrs()
}

/// Emits the code of every builtin.
pub fn generate_builtins() -> (r: Vec<Instruction>)
    ensures
        iviews(r@) == builtins_instrs(),
{
    let mut result = Vec::new();
    print::generate(&mut result);
    proof {
        assert(iviews(result@) =~= builtins_instrs());
    }
    result
}

} // verus!
