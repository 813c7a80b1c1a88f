//! Expression lowering: turns an expression tree into an instruction
//! sequence that leaves the expression's value in the accumulator
//! register `rax`, clobbering only the scratch register `rbx` and the
//! stack it balances itself.

use vstd::prelude::*;
use vstd::string::StringExecFns;
use crate::decimal::{append_dec, dec_digits, dec_string};
use crate::errors::{CodegenError, ErrV};
use crate::instructions::{
    iviews, lemma_iviews_add, lemma_iviews_push, Instruction, InstructionV, Register,
};
use crate::ir::{
    expr_seq_view, expr_view, lemma_expr_seq_view_props, ExprV, IRExpression, IROperation,
    IRValue,
};
use crate::variables::VariableOffsets;

verus! {

/// The textual memory operand for a stack slot at signed offset `off`:
/// positive (local) offsets lie below the frame base, negative
/// (parameter) offsets above it.
pub open spec fn mem_operand(off: int) -> Seq<char> {
    if off >= 0 {
        "[rbp - "@ + dec_digits(off as nat) + "]"@
    } else {
        "[rbp + "@ + dec_digits((-off) as nat) + "]"@
    }
}

pub(crate) fn mem_operand_str(off: i64) -> (r: String)
    requires
        off != i64::MIN,
    ensures
        r@ == mem_operand(off as int),
{
    if off >= 0 {
        let mut s = String::from_str("[rbp - ");
        append_dec(&mut s, off as u64);
        s.append("]");
        proof {
            assert(s@ =~= mem_operand(off as int));
        }
        s
    } else {
        let mut s = String::from_str("[rbp + ");
        append_dec(&mut s, (-off) as u64);
        s.append("]");
        proof {
            assert(s@ =~= mem_operand(off as int));
        }
        s
    }
}

/// The caller-side stack cleanup after a call: one stack-pointer
/// adjustment per pushed argument.
pub open spec fn cleanup_instrs(n: nat) -> Seq<InstructionV> {
    Seq::new(n, |i: int| InstructionV::Add("rsp"@, "8"@))
}

/// The instructions that lowering an expression produces, or the error
/// that aborts it.  The expression's value ends up in the accumulator:
/// a literal is one immediate load; a variable is one load from its
/// stack slot; a binary operation lowers its left operand, parks the
/// result on the stack while the right operand is lowered, and then
/// combines the two; a call lowers and pushes its arguments in reverse
/// order, calls, and pops the arguments again; `Noop` emits nothing.
/// An operation of an unsupported kind, or with any operand count
/// other than two, is rejected as `UnsupportedOperation`.
pub open spec fn lower_expr(e: ExprV, vars: Map<Seq<char>, int>) -> Result<
    Seq<InstructionV>,
    ErrV,
>
    decreases e,
{
    match e {
        ExprV::Value(v) => match v {
            IRValue::Number(n) => Ok(seq![InstructionV::Move("rax"@, dec_digits(n as nat))]),
        },
        ExprV::Variable(name) => if vars.contains_key(name) {
            Ok(seq![InstructionV::Move("rax"@, mem_operand(vars[name]))])
        } else {
            Err(ErrV::UndeclaredVariable(name))
        },
        ExprV::Operation(op, es) => if es.len() != 2 {
            Err(ErrV::UnsupportedOperation(op))
        } else {
            match lower_expr(es[0], vars) {
            Err(e) => Err(e),
            Ok(fi) => match lower_expr(es[1], vars) {
                Err(e) => Err(e),
                Ok(si) => match op {
                    IROperation::Add => Ok(
                        fi + seq![InstructionV::Push("rax"@)] + si + seq![
                            InstructionV::Move("rbx"@, "rax"@),
                            InstructionV::Pop("rax"@),
                            InstructionV::Add("rax"@, "rbx"@),
                        ],
                    ),
                    IROperation::Sub => Ok(
                        fi + seq![InstructionV::Push("rax"@)] + si + seq![
                            InstructionV::Move("rbx"@, "rax"@),
                            InstructionV::Pop("rax"@),
                            InstructionV::Sub("rax"@, "rbx"@),
                        ],
                    ),
                    _ => Err(ErrV::UnsupportedOperation(op)),
                },
            },
            }
        },
        ExprV::Call(name, args) => if name == "print"@ && args.len() != 1 {
            Err(ErrV::MalformedCall)
        } else {
            match lower_args_rev(args, vars) {
                Err(e) => Err(e),
                Ok(ai) => Ok(ai + seq![InstructionV::Call(name)] + cleanup_instrs(args.len())),
            }
        },
        ExprV::Noop => Ok(Seq::empty()),
    }
}

/// Argument set-up for a call: arguments are lowered and pushed in
/// reverse source order, so the stack holds them in forward order for
/// the callee's positive-offset access.
pub open spec fn lower_args_rev(args: Seq<ExprV>, vars: Map<Seq<char>, int>) -> Result<
    Seq<InstructionV>,
    ErrV,
>
    decreases args,
{
    if args.len() == 0 {
        Ok(Seq::empty())
    } else {
        match lower_expr(args.last(), vars) {
            Err(e) => Err(e),
            Ok(li) => match lower_args_rev(args.drop_last(), vars) {
                Err(e) => Err(e),
                Ok(rest) => Ok(li + seq![InstructionV::Push("rax"@)] + rest),
            },
        }
    }
}

/// Lowers `exp` against the enclosing function's stack layout.  On
/// success the returned instructions leave the expression's value in
/// the accumulator; on failure nothing is emitted.
#[verifier::loop_isolation(false)]
#[verifier::rlimit(60)]
pub fn generate(exp: &IRExpression, vars: &VariableOffsets) -> (r: Result<
    Vec<Instruction>,
    CodegenError,
>)
    requires
        vars.wf(),
    ensures
        match r {
            Ok(v) => lower_expr(exp@, vars@) is Ok && iviews(v@) == lower_expr(exp@, vars@)->Ok_0,
            Err(e) => lower_expr(exp@, vars@) is Err && e@ == lower_expr(exp@, vars@)->Err_0,
        },
    decreases exp,
{
    broadcast use lemma_iviews_push, lemma_iviews_add, lemma_expr_seq_view_props;

    let mut result: Vec<Instruction> = Vec::new();
    match exp {
        IRExpression::Value(ir_value) => match ir_value {
            IRValue::Number(value) => {
                result.push(Instruction::Move(Register::RAX.to_string(), dec_string(*value)));
                proof {
                    assert(iviews(result@) =~= lower_expr(exp@, vars@)->Ok_0);
                }
                Ok(result)
            },
        },
        IRExpression::Variable(var_name) => match vars.get(var_name) {
            Some(source_offset) => {
                let source = mem_operand_str(source_offset);
                result.push(Instruction::Move(Register::RAX.to_string(), source));
                proof {
                    assert(iviews(result@) =~= lower_expr(exp@, vars@)->Ok_0);
                }
                Ok(result)
            },
            None => Err(CodegenError::UndeclaredVariable(var_name.clone())),
        },
        IRExpression::Operation(operation, other_exp) => {
            proof {
                assert(expr_seq_view(other_exp@).len() == other_exp@.len());
            }
            if other_exp.len() != 2 {
                return Err(CodegenError::UnsupportedOperation(*operation));
            }
            proof {
                assert(expr_seq_view(other_exp@)[0] == expr_view(other_exp@[0]));
                assert(expr_seq_view(other_exp@)[1] == expr_view(other_exp@[1]));
            }
            let mut first_instrs = match generate(&other_exp[0], vars) {
                Ok(v) => v,
                Err(e) => {
                    return Err(e);
                },
            };
            let mut second_instrs = match generate(&other_exp[1], vars) {
                Ok(v) => v,
                Err(e) => {
                    return Err(e);
                },
            };
            match operation {
                IROperation::Add => {
                    result.append(&mut first_instrs);
                    result.push(Instruction::Push(Register::RAX.to_string()));
                    result.append(&mut second_instrs);
                    result.push(
                        Instruction::Move(Register::RBX.to_string(), Register::RAX.to_string()),
                    );
                    result.push(Instruction::Pop(Register::RAX.to_string()));
                    result.push(
                        Instruction::Add(Register::RAX.to_string(), Register::RBX.to_string()),
                    );
                    proof {
                        assert(iviews(result@) =~= lower_expr(exp@, vars@)->Ok_0);
                    }
                    Ok(result)
                },
                IROperation::Sub => {
                    result.append(&mut first_instrs);
                    result.push(Instruction::Push(Register::RAX.to_string()));
                    result.append(&mut second_instrs);
                    result.push(
                        Instruction::Move(Register::RBX.to_string(), Register::RAX.to_string()),
                    );
                    result.push(Instruction::Pop(Register::RAX.to_string()));
                    result.push(
                        Instruction::Sub(Register::RAX.to_string(), Register::RBX.to_string()),
                    );
                    proof {
                        assert(iviews(result@) =~= lower_expr(exp@, vars@)->Ok_0);
                    }
                    Ok(result)
                },
                _ => Err(CodegenError::UnsupportedOperation(*operation)),
            }
        },
        IRExpression::Call(func_name, exp_args) => {
            let ghost av = expr_seq_view(exp_args@);
            if func_name.eq(&String::from_str("print")) && exp_args.len() != 1 {
                return Err(CodegenError::MalformedCall);
            }
            proof {
                assert(lower_expr(exp@, vars@) == (match lower_args_rev(av, vars@) {
                    Err(e) => Err::<Seq<InstructionV>, ErrV>(e),
                    Ok(ai) => Ok(
                        ai + seq![InstructionV::Call(func_name@)] + cleanup_instrs(av.len()),
                    ),
                }));
                assert(av.take(av.len() as int) =~= av);
                assert(iviews(result@) =~= Seq::<InstructionV>::empty());
                if lower_args_rev(av, vars@) is Ok {
                    assert(iviews(result@) + lower_args_rev(av, vars@)->Ok_0 =~= lower_args_rev(
                        av,
                        vars@,
                    )->Ok_0);
                }
            }
            let mut k = exp_args.len();
            while k > 0
                invariant
                    k <= exp_args@.len(),
                    lower_args_rev(av, vars@) == (match lower_args_rev(av.take(k as int), vars@) {
                        Err(e) => Err::<Seq<InstructionV>, ErrV>(e),
                        Ok(rest) => Ok(iviews(result@) + rest),
                    }),
                decreases k,
            {
                k = k - 1;
                proof {
                    assert(av.take(k + 1).drop_last() =~= av.take(k as int));
                    assert(av.take(k + 1).last() == av[k as int]);
                }
                let ghost pre = iviews(result@);
                match generate(&exp_args[k], vars) {
                    Ok(mut vi) => {
                        let ghost li = iviews(vi@);
                        result.append(&mut vi);
                        result.push(Instruction::Push(Register::RAX.to_string()));
                        proof {
                            assert(iviews(result@) =~= pre + li + seq![
                                InstructionV::Push("rax"@),
                            ]);
                            if lower_args_rev(av.take(k as int), vars@) is Ok {
                                let rest = lower_args_rev(av.take(k as int), vars@)->Ok_0;
                                assert(pre + (li + seq![InstructionV::Push("rax"@)] + rest)
                                    =~= iviews(result@) + rest);
                            }
                        }
                    },
                    Err(e) => {
                        proof {
                            assert(lower_expr(exp@, vars@) is Err);
                        }
                        return Err(e);
                    },
                }
            }
            proof {
                assert(av.take(0) =~= Seq::<ExprV>::empty());
                assert(lower_args_rev(av, vars@) is Ok && lower_args_rev(av, vars@)->Ok_0
                    =~= iviews(result@));
            }
            result.push(Instruction::Call(func_name.clone()));
            let ghost args_done = result@;
            let mut j: usize = 0;
            while j < exp_args.len()
                invariant
                    j <= exp_args@.len(),
                    iviews(result@) == iviews(args_done) + cleanup_instrs(j as nat),
                decreases exp_args@.len() - j,
            {
                result.push(Instruction::Add(Register::RSP.to_string(), "8".to_owned()));
                proof {
                    assert(iviews(result@) =~= iviews(args_done) + cleanup_instrs(
                        (j + 1) as nat,
                    ));
                }
                j = j + 1;
            }
            proof {
                assert(iviews(result@) =~= lower_expr(exp@, vars@)->Ok_0);
            }
            Ok(result)
        },
        IRExpression::Noop => {
            proof {
                assert(iviews(result@) =~= Seq::<InstructionV>::empty());
            }
            Ok(result)
        },
    }
}

} // verus!
