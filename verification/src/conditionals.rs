//! Comparison lowering: evaluates the two operands of a comparison,
//! compares them, and branches to a target label — either when the
//! comparison fails (the *inverse* jump that guards conditionals and
//! loops) or when it holds (the *direct* jump that closes a loop).

use vstd::prelude::*;
use crate::errors::{CodegenError, ErrV};
use crate::instructions::{
    iviews, lemma_iviews_add, lemma_iviews_push, Instruction, InstructionV, Register,
};
use crate::ir::{CmpV, IRComparison};
use crate::expression::{generate, lower_expr};
use crate::variables::VariableOffsets;

verus! {

/// The operand evaluation shared by both jump forms: left operand into
/// the accumulator, parked on the stack; right operand into the
/// accumulator; left popped back into the scratch register; compare
/// scratch against accumulator.
pub open spec fn lower_cmp_operands(c: CmpV, vars: Map<Seq<char>, int>) -> Result<
    Seq<InstructionV>,
    ErrV,
> {
    let (l, r) = match c {
        CmpV::Equals(l, r) => (l, r),
        CmpV::GreaterThan(l, r) => (l, r),
    };
    match lower_expr(l, vars) {
        Err(e) => Err(e),
        Ok(li) => match lower_expr(r, vars) {
            Err(e) => Err(e),
            Ok(ri) => Ok(
                li + seq![InstructionV::Push("rax"@)] + ri + seq![
                    InstructionV::Pop("rbx"@),
                    InstructionV::Cmp("rbx"@, "rax"@),
                ],
            ),
        },
    }
}

/// The branch instruction taken when the comparison does *not* hold.
pub open spec fn inverse_branch(c: CmpV, target: Seq<char>) -> InstructionV {
    match c {
        CmpV::Equals(l, r) => InstructionV::Jne(target),
        CmpV::GreaterThan(l, r) => InstructionV::Jle(target),
    }
}

/// The branch instruction taken when the comparison holds.
pub open spec fn direct_branch(c: CmpV, target: Seq<char>) -> InstructionV {
    match c {
        CmpV::Equals(l, r) => InstructionV::Je(target),
        CmpV::GreaterThan(l, r) => InstructionV::Jg(target),
    }
}

/// Operand evaluation followed by the inverse branch to `target`.
pub open spec fn lower_inverse_jump(c: CmpV, target: Seq<char>, vars: Map<Seq<char>, int>) -> Result<
    Seq<InstructionV>,
    ErrV,
> {
    match lower_cmp_operands(c, vars) {
        Err(e) => Err(e),
        Ok(ci) => Ok(ci.push(inverse_branch(c, target))),
    }
}

/// Operand evaluation followed by the direct branch to `target`.
pub open spec fn lower_jump(c: CmpV, target: Seq<char>, vars: Map<Seq<char>, int>) -> Result<
    Seq<InstructionV>,
    ErrV,
> {
    match lower_cmp_operands(c, vars) {
        Err(e) => Err(e),
        Ok(ci) => Ok(ci.push(direct_branch(c, target))),
    }
}

fn generate_cmp_operands(cond: &IRComparison, variables: &VariableOffsets) -> (r: Result<
    Vec<Instruction>,
    CodegenError,
>)
    requires
        variables.wf(),
    ensures
        match r {
            Ok(v) => lower_cmp_operands(cond@, variables@) is Ok && iviews(v@)
                == lower_cmp_operands(cond@, variables@)->Ok_0,
            Err(e) => lower_cmp_operands(cond@, variables@) is Err && e@ == lower_cmp_operands(
                cond@,
                variables@,
            )->Err_0,
        },
{
    broadcast use lemma_iviews_push, lemma_iviews_add;

    let (left, right) = match cond {
        IRComparison::Equals(l, r) => (l, r),
        IRComparison::GreaterThan(l, r) => (l, r),
    };
    let mut result = match generate(left, variables) {
        Ok(v) => v,
        Err(e) => {
            return Err(e);
        },
    };
    result.push(Instruction::Push(Register::RAX.to_string()));
    let mut right_instrs = match generate(right, variables) {
        Ok(v) => v,
        Err(e) => {
            return Err(e);
        },
    };
    result.append(&mut right_instrs);
    result.push(Instruction::Pop(Register::RBX.to_string()));
    result.push(Instruction::Cmp(Register::RBX.to_string(), Register::RAX.to_string()));
    proof {
        assert(iviews(result@) =~= lower_cmp_operands(cond@, variables@)->Ok_0);
    }
    Ok(result)
}

/// Generates the instructions that jump to `jump_target` when the
/// comparison does not hold (used to skip a conditional's body or a
/// whole loop).
pub fn generate_inverse_jump(
    cond: &IRComparison,
    jump_target: String,
    variables: &VariableOffsets,
) -> (r: Result<Vec<Instruction>, CodegenError>)
    requires
        variables.wf(),
    ensures
        match r {
            Ok(v) => lower_inverse_jump(cond@, jump_target@, variables@) is Ok && iviews(v@)
                == lower_inverse_jump(cond@, jump_target@, variables@)->Ok_0,
            Err(e) => lower_inverse_jump(cond@, jump_target@, variables@) is Err && e@
                == lower_inverse_jump(cond@, jump_target@, variables@)->Err_0,
        },
{
    broadcast use lemma_iviews_push;

    let mut result = match generate_cmp_operands(cond, variables) {
        Ok(v) => v,
        Err(e) => {
            return Err(e);
        },
    };
    let jump_instr = match cond {
        IRComparison::Equals(l, r) => Instruction::Jne(jump_target),
        IRComparison::GreaterThan(l, r) => Instruction::Jle(jump_target),
    };
    result.push(jump_instr);
    Ok(result)
}

/// Generates the instructions that jump to `jump_target` when the
/// comparison holds (used to branch back to a loop's top).
pub fn generate_jump(
    cond: &IRComparison,
    jump_target: String,
    variables: &VariableOffsets,
) -> (r: Result<Vec<Instruction>, CodegenError>)
    requires
        variables.wf(),
    ensures
        match r {
            Ok(v) => lower_jump(cond@, jump_target@, variables@) is Ok && iviews(v@) == lower_jump(
                cond@,
                jump_target@,
                variables@,
            )->Ok_0,
            Err(e) => lower_jump(cond@, jump_target@, variables@) is Err && e@ == lower_jump(
                cond@,
                jump_target@,
                variables@,
            )->Err_0,
        },
{
    broadcast use lemma_iviews_push;

    let mut result = match generate_cmp_operands(cond, variables) {
        Ok(v) => v,
        Err(e) => {
            return Err(e);
        },
    };
    let jump_instr = match cond {
        IRComparison::Equals(l, r) => Instruction::Je(jump_target),
        IRComparison::GreaterThan(l, r) => Instruction::Jg(jump_target),
    };
    result.push(jump_instr);
    Ok(result)
}

} // verus!
