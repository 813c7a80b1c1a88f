//! The function assembler: walks one function's statement-lists in
//! order and lowers each statement, threading a label counter through
//! so that every conditional and loop receives fresh label names, then
//! wraps the body in the fixed prologue and epilogue.

use vstd::prelude::*;
use vstd::string::StringExecFns;
use crate::decimal::{append_dec, dec_digits, dec_string};
use crate::errors::{CodegenError, ErrV};
use crate::instructions::{
    iviews, lemma_iviews_add, lemma_iviews_push, Instruction, InstructionV, Register,
};
use crate::ir::{
    lemma_node_seq_view_props, lemma_stmts_view_props, node_seq_view, node_view, stmts_view,
    FuncV, IRFunction, IRNode, NodeV,
};
use crate::conditionals::{generate_inverse_jump, generate_jump, lower_inverse_jump, lower_jump};
use crate::expression::{
    generate as generate_expression, lower_expr, mem_operand, mem_operand_str,
};
use crate::variables::{decl_total, generate_offsets, layout_of, VariableOffsets};

verus! {

/// How many label pairs lowering may generate: one per conditional or
/// loop node, nested bodies included.
pub open spec fn weight_node(n: NodeV) -> nat
    decreases n,
{
    match n {
        NodeV::Conditional(c, body) => 1 + weight_stmts(body),
        NodeV::Loop(c, body) => 1 + weight_stmts(body),
        _ => 0,
    }
}

pub open spec fn weight_stmt(s: Seq<NodeV>) -> nat
    decreases s,
{
    if s.len() == 0 {
        0
    } else {
        weight_stmt(s.drop_last()) + weight_node(s.last())
    }
}

pub open spec fn weight_stmts(s: Seq<Seq<NodeV>>) -> nat
    decreases s,
{
    if s.len() == 0 {
        0
    } else {
        weight_stmts(s.drop_last()) + weight_stmt(s.last())
    }
}

/// The name of the end label of the conditional or loop numbered `c`.
pub open spec fn end_label(c: nat) -> Seq<char> {
    "L"@ + dec_digits(c) + "_END"@
}

/// The name of the top label of the loop numbered `c`.
pub open spec fn top_label(c: nat) -> Seq<char> {
    "L"@ + dec_digits(c) + "_TOP"@
}

/// The shared epilogue: restore the stack pointer from the frame base
/// and pop the caller's frame pointer.  It is identical at every
/// return site and at the fall-through exit, so stack discipline holds
/// on every path.
pub open spec fn epilogue_instrs() -> Seq<InstructionV> {
    seq![InstructionV::Move("rsp"@, "rbp"@), InstructionV::Pop("rbp"@)]
}

/// Lowering of one statement: the instructions it emits and the label
/// counter after it.  Declarations emit nothing (layout already
/// resolved them); an assignment stores the accumulator to the
/// target's slot; a conditional guards its body with an inverse jump
/// to a fresh end label; a loop is guarded the same way, then runs its
/// body between a fresh top label and a direct back-jump; a return
/// runs the shared epilogue after its optional value.
pub open spec fn lower_node(n: NodeV, vars: Map<Seq<char>, int>, c: nat) -> Result<
    (Seq<InstructionV>, nat),
    ErrV,
>
    decreases n,
{
    match n {
        NodeV::Assignment(name, e) => if !vars.contains_key(name) {
            Err(ErrV::UndeclaredVariable(name))
        } else {
            match lower_expr(e, vars) {
                Err(err) => Err(err),
                Ok(ei) => Ok(
                    (
                        seq![InstructionV::Comment("Assignment"@)] + ei + seq![
                            InstructionV::Move(mem_operand(vars[name]), "rax"@),
                        ],
                        c,
                    ),
                ),
            }
        },
        NodeV::DeclareVariable(name, t) => Ok((Seq::empty(), c)),
        NodeV::Conditional(cmp, body) => match lower_inverse_jump(cmp, end_label(c), vars) {
            Err(err) => Err(err),
            Ok(ji) => match lower_stmts(body, vars, c + 1) {
                Err(err) => Err(err),
                Ok(bi) => Ok(
                    (
                        seq![InstructionV::Comment("Conditional"@)] + ji + bi.0 + seq![
                            InstructionV::Label(end_label(c)),
                        ],
                        bi.1,
                    ),
                ),
            },
        },
        NodeV::Loop(cmp, body) => match lower_inverse_jump(cmp, end_label(c), vars) {
            Err(err) => Err(err),
            Ok(ji) => match lower_stmts(body, vars, c + 1) {
                Err(err) => Err(err),
                Ok(bi) => match lower_jump(cmp, top_label(c), vars) {
                    Err(err) => Err(err),
                    Ok(back) => Ok(
                        (
                            seq![InstructionV::Comment("Loop"@)] + ji + seq![
                                InstructionV::Label(top_label(c)),
                            ] + bi.0 + back + seq![InstructionV::Label(end_label(c))],
                            bi.1,
                        ),
                    ),
                },
            },
        },
        NodeV::Return(raw) => match raw {
            Some(e) => match lower_expr(e, vars) {
                Err(err) => Err(err),
                Ok(ei) => Ok(
                    (
                        seq![InstructionV::Comment("Return"@)] + ei + epilogue_instrs() + seq![
                            InstructionV::Return,
                        ],
                        c,
                    ),
                ),
            },
            None => Ok(
                (
                    seq![InstructionV::Comment("Return"@)] + epilogue_instrs() + seq![
                        InstructionV::Return,
                    ],
                    c,
                ),
            ),
        },
        NodeV::SingleExpression(e) => match lower_expr(e, vars) {
            Err(err) => Err(err),
            Ok(ei) => Ok((seq![InstructionV::Comment("Single-Expression"@)] + ei, c)),
        },
    }
}

/// Lowering of one statement-list, in order, threading the counter.
pub open spec fn lower_stmt(s: Seq<NodeV>, vars: Map<Seq<char>, int>, c: nat) -> Result<
    (Seq<InstructionV>, nat),
    ErrV,
>
    decreases s,
{
    if s.len() == 0 {
        Ok((Seq::empty(), c))
    } else {
        match lower_stmt(s.drop_last(), vars, c) {
            Err(err) => Err(err),
            Ok(pre) => match lower_node(s.last(), vars, pre.1) {
                Err(err) => Err(err),
                Ok(ni) => Ok((pre.0 + ni.0, ni.1)),
            },
        }
    }
}

/// Lowering of a sequence of statement-lists, in order.
pub open spec fn lower_stmts(s: Seq<Seq<NodeV>>, vars: Map<Seq<char>, int>, c: nat) -> Result<
    (Seq<InstructionV>, nat),
    ErrV,
>
    decreases s,
{
    if s.len() == 0 {
        Ok((Seq::empty(), c))
    } else {
        match lower_stmts(s.drop_last(), vars, c) {
            Err(err) => Err(err),
            Ok(pre) => match lower_stmt(s.last(), vars, pre.1) {
                Err(err) => Err(err),
                Ok(ni) => Ok((pre.0 + ni.0, ni.1)),
            },
        }
    }
}

/// The counter after lowering never moves backwards and advances by at
/// most the weight of what was lowered.
pub proof fn lemma_lower_node_counter(n: NodeV, vars: Map<Seq<char>, int>, c: nat)
    requires
        lower_node(n, vars, c) is Ok,
    ensures
        c <= lower_node(n, vars, c)->Ok_0.1 <= c + weight_node(n),
    decreases n,
{
    match n {
        NodeV::Conditional(cmp, body) => {
            if lower_stmts(body, vars, c + 1) is Ok {
                lemma_lower_stmts_counter(body, vars, c + 1);
            }
        },
        NodeV::Loop(cmp, body) => {
            if lower_stmts(body, vars, c + 1) is Ok {
                lemma_lower_stmts_counter(body, vars, c + 1);
            }
        },
        _ => {},
    }
}

pub proof fn lemma_lower_stmt_counter(s: Seq<NodeV>, vars: Map<Seq<char>, int>, c: nat)
    requires
        lower_stmt(s, vars, c) is Ok,
    ensures
        c <= lower_stmt(s, vars, c)->Ok_0.1 <= c + weight_stmt(s),
    decreases s,
{
    if s.len() > 0 {
        lemma_lower_stmt_counter(s.drop_last(), vars, c);
        lemma_lower_node_counter(s.last(), vars, lower_stmt(s.drop_last(), vars, c)->Ok_0.1);
    }
}

pub proof fn lemma_lower_stmts_counter(s: Seq<Seq<NodeV>>, vars: Map<Seq<char>, int>, c: nat)
    requires
        lower_stmts(s, vars, c) is Ok,
    ensures
        c <= lower_stmts(s, vars, c)->Ok_0.1 <= c + weight_stmts(s),
    decreases s,
{
    if s.len() > 0 {
        lemma_lower_stmts_counter(s.drop_last(), vars, c);
        lemma_lower_stmt_counter(s.last(), vars, lower_stmts(s.drop_last(), vars, c)->Ok_0.1);
    }
}

/// An error in a prefix of a statement-list is the error of the whole
/// list: lowering stops at the first failing statement.
proof fn lemma_lower_stmt_err_prefix(s: Seq<NodeV>, vars: Map<Seq<char>, int>, c: nat, j: int)
    requires
        0 <= j <= s.len(),
        lower_stmt(s.take(j), vars, c) is Err,
    ensures
        lower_stmt(s, vars, c) == lower_stmt(s.take(j), vars, c),
    decreases s.len() - j,
{
    if j == s.len() {
        assert(s.take(j) =~= s);
    } else {
        assert(s.take(j + 1).drop_last() =~= s.take(j));
        lemma_lower_stmt_err_prefix(s, vars, c, j + 1);
    }
}

proof fn lemma_lower_stmts_err_prefix(
    s: Seq<Seq<NodeV>>,
    vars: Map<Seq<char>, int>,
    c: nat,
    j: int,
)
    requires
        0 <= j <= s.len(),
        lower_stmts(s.take(j), vars, c) is Err,
    ensures
        lower_stmts(s, vars, c) == lower_stmts(s.take(j), vars, c),
    decreases s.len() - j,
{
    if j == s.len() {
        assert(s.take(j) =~= s);
    } else {
        assert(s.take(j + 1).drop_last() =~= s.take(j));
        lemma_lower_stmts_err_prefix(s, vars, c, j + 1);
    }
}

proof fn lemma_weight_stmt_take(s: Seq<NodeV>, i: int)
    requires
        0 <= i < s.len(),
    ensures
        weight_stmt(s.take(i + 1)) == weight_stmt(s.take(i)) + weight_node(s[i]),
        weight_stmt(s.take(i)) + weight_node(s[i]) <= weight_stmt(s),
    decreases s.len() - i,
{
    assert(s.take(i + 1).drop_last() =~= s.take(i));
    assert(s.take(i + 1).last() == s[i]);
    if i + 1 == s.len() {
        assert(s.take(i + 1) =~= s);
    } else {
        lemma_weight_stmt_monotone(s, i + 1);
    }
}

proof fn lemma_weight_stmt_monotone(s: Seq<NodeV>, i: int)
    requires
        0 <= i <= s.len(),
    ensures
        weight_stmt(s.take(i)) <= weight_stmt(s),
    decreases s.len() - i,
{
    if i == s.len() {
        assert(s.take(i) =~= s);
    } else {
        assert(s.take(i + 1).drop_last() =~= s.take(i));
        lemma_weight_stmt_monotone(s, i + 1);
    }
}

proof fn lemma_weight_stmts_take(s: Seq<Seq<NodeV>>, i: int)
    requires
        0 <= i < s.len(),
    ensures
        weight_stmts(s.take(i + 1)) == weight_stmts(s.take(i)) + weight_stmt(s[i]),
        weight_stmts(s.take(i)) + weight_stmt(s[i]) <= weight_stmts(s),
    decreases s.len() - i,
{
    assert(s.take(i + 1).drop_last() =~= s.take(i));
    assert(s.take(i + 1).last() == s[i]);
    if i + 1 == s.len() {
        assert(s.take(i + 1) =~= s);
    } else {
        lemma_weight_stmts_monotone(s, i + 1);
    }
}

proof fn lemma_weight_stmts_monotone(s: Seq<Seq<NodeV>>, i: int)
    requires
        0 <= i <= s.len(),
    ensures
        weight_stmts(s.take(i)) <= weight_stmts(s),
    decreases s.len() - i,
{
    if i == s.len() {
        assert(s.take(i) =~= s);
    } else {
        assert(s.take(i + 1).drop_last() =~= s.take(i));
        lemma_weight_stmts_monotone(s, i + 1);
    }
}

/// Renders the label `L<counter><suffix>`.
fn make_label(counter: u64, suffix: &str) -> (r: String)
    ensures
        r@ == "L"@ + dec_digits(counter as nat) + suffix@,
{
    let mut s = String::from_str("L");
    append_dec(&mut s, counter);
    s.append(suffix);
    proof {
        assert(s@ =~= "L"@ + dec_digits(counter as nat) + suffix@);
    }
    s
}

/// Appends the shared epilogue sequence.
fn push_epilogue(instr: &mut Vec<Instruction>)
    ensures
        iviews(final(instr)@) == iviews(old(instr)@) + epilogue_instrs(),
{
    broadcast use lemma_iviews_push;

    instr.push(Instruction::Move(Register::RSP.to_string(), Register::RBP.to_string()));
    instr.push(Instruction::Pop(Register::RBP.to_string()));
    proof {
        assert(iviews(instr@) =~= iviews(old(instr)@) + epilogue_instrs());
    }
}

/// Lowers a single statement, advancing the label counter past any
/// labels it consumes.
#[verifier::rlimit(100)]
fn generate_node(step: &IRNode, variables: &VariableOffsets, counter: &mut u64) -> (r: Result<
    Vec<Instruction>,
    CodegenError,
>)
    requires
        variables.wf(),
        *old(counter) + weight_node(step@) <= u64::MAX,
    ensures
        match r {
            Ok(v) => {
                &&& lower_node(step@, variables@, *old(counter) as nat) is Ok
                &&& iviews(v@) == lower_node(step@, variables@, *old(counter) as nat)->Ok_0.0
                &&& *final(counter) as nat == lower_node(
                    step@,
                    variables@,
                    *old(counter) as nat,
                )->Ok_0.1
            },
            Err(e) => lower_node(step@, variables@, *old(counter) as nat) is Err && e@
                == lower_node(step@, variables@, *old(counter) as nat)->Err_0,
        },
    decreases step,
{
    broadcast use lemma_iviews_push, lemma_iviews_add;

    let mut result: Vec<Instruction> = Vec::new();
    match step {
        IRNode::Assignment(var_name, exp) => {
            result.push(Instruction::Comment("Assignment".to_owned()));
            let target_offset = match variables.get(var_name) {
                Some(v) => v,
                None => {
                    return Err(CodegenError::UndeclaredVariable(var_name.clone()));
                },
            };
            let target = mem_operand_str(target_offset);
            let mut ei = match generate_expression(exp, variables) {
                Ok(v) => v,
                Err(e) => {
                    return Err(e);
                },
            };
            result.append(&mut ei);
            result.push(Instruction::Move(target, Register::RAX.to_string()));
            proof {
                assert(iviews(result@) =~= lower_node(
                    step@,
                    variables@,
                    *old(counter) as nat,
                )->Ok_0.0);
            }
            Ok(result)
        },
        IRNode::DeclareVariable(name, t) => {
            proof {
                assert(iviews(result@) =~= Seq::<InstructionV>::empty());
            }
            Ok(result)
        },
        IRNode::Conditional(cond, nodes) => {
            result.push(Instruction::Comment("Conditional".to_owned()));
            let end_target = make_label(*counter, "_END");
            *counter = *counter + 1;
            let mut ji = match generate_inverse_jump(cond, end_target.clone(), variables) {
                Ok(v) => v,
                Err(e) => {
                    return Err(e);
                },
            };
            result.append(&mut ji);
            let mut bi = match generate_statements(nodes, variables, counter) {
                Ok(v) => v,
                Err(e) => {
                    return Err(e);
                },
            };
            result.append(&mut bi);
            result.push(Instruction::Label(end_target));
            proof {
                assert(iviews(result@) =~= lower_node(
                    step@,
                    variables@,
                    *old(counter) as nat,
                )->Ok_0.0);
            }
            Ok(result)
        },
        IRNode::Loop(cond, nodes) => {
            result.push(Instruction::Comment("Loop".to_owned()));
            let top_target = make_label(*counter, "_TOP");
            let end_target = make_label(*counter, "_END");
            *counter = *counter + 1;
            let mut ji = match generate_inverse_jump(cond, end_target.clone(), variables) {
                Ok(v) => v,
                Err(e) => {
                    return Err(e);
                },
            };
            result.append(&mut ji);
            result.push(Instruction::Label(top_target.clone()));
            let mut bi = match generate_statements(nodes, variables, counter) {
                Ok(v) => v,
                Err(e) => {
                    return Err(e);
                },
            };
            result.append(&mut bi);
            let mut back = match generate_jump(cond, top_target, variables) {
                Ok(v) => v,
                Err(e) => {
                    return Err(e);
                },
            };
            result.append(&mut back);
            result.push(Instruction::Label(end_target));
            proof {
                assert(iviews(result@) =~= lower_node(
                    step@,
                    variables@,
                    *old(counter) as nat,
                )->Ok_0.0);
            }
            Ok(result)
        },
        IRNode::Return(raw_exp) => {
            result.push(Instruction::Comment("Return".to_owned()));
            match raw_exp {
                Some(exp) => {
                    let mut ei = match generate_expression(exp, variables) {
                        Ok(v) => v,
                        Err(e) => {
                            return Err(e);
                        },
                    };
                    result.append(&mut ei);
                },
                None => {},
            }
            push_epilogue(&mut result);
            result.push(Instruction::Return);
            proof {
                assert(iviews(result@) =~= lower_node(
                    step@,
                    variables@,
                    *old(counter) as nat,
                )->Ok_0.0);
            }
            Ok(result)
        },
        IRNode::SingleExpression(exp) => {
            result.push(Instruction::Comment("Single-Expression".to_owned()));
            let mut ei = match generate_expression(exp, variables) {
                Ok(v) => v,
                Err(e) => {
                    return Err(e);
                },
            };
            result.append(&mut ei);
            proof {
                assert(iviews(result@) =~= lower_node(
                    step@,
                    variables@,
                    *old(counter) as nat,
                )->Ok_0.0);
            }
            Ok(result)
        },
    }
}

/// Lowers one statement-list in order, stopping at the first failing
/// statement.  On failure the counter may have advanced; the caller
/// discards the whole function's output anyway.
#[verifier::loop_isolation(false)]
#[verifier::rlimit(60)]
pub fn generate_statement(
    statement: &[IRNode],
    variables: &VariableOffsets,
    counter: &mut u64,
) -> (r: Result<Vec<Instruction>, CodegenError>)
    requires
        variables.wf(),
        *old(counter) + weight_stmt(node_seq_view(statement@)) <= u64::MAX,
    ensures
        match r {
            Ok(v) => {
                &&& lower_stmt(node_seq_view(statement@), variables@, *old(counter) as nat) is Ok
                &&& iviews(v@) == lower_stmt(
                    node_seq_view(statement@),
                    variables@,
                    *old(counter) as nat,
                )->Ok_0.0
                &&& *final(counter) as nat == lower_stmt(
                    node_seq_view(statement@),
                    variables@,
                    *old(counter) as nat,
                )->Ok_0.1
            },
            Err(e) => lower_stmt(node_seq_view(statement@), variables@, *old(counter) as nat)
                is Err && e@ == lower_stmt(
                node_seq_view(statement@),
                variables@,
                *old(counter) as nat,
            )->Err_0,
        },
    decreases statement@,
{
    broadcast use lemma_iviews_add, lemma_node_seq_view_props;

    let ghost ns = node_seq_view(statement@);
    let ghost c0 = *old(counter) as nat;
    let mut result: Vec<Instruction> = Vec::new();
    let mut i: usize = 0;
    proof {
        assert(ns.take(0) =~= Seq::<NodeV>::empty());
        assert(iviews(result@) =~= Seq::<InstructionV>::empty());
    }
    while i < statement.len()
        invariant
            i <= statement@.len(),
            lower_stmt(ns.take(i as int), variables@, c0) is Ok,
            iviews(result@) == lower_stmt(ns.take(i as int), variables@, c0)->Ok_0.0,
            *counter as nat == lower_stmt(ns.take(i as int), variables@, c0)->Ok_0.1,
        decreases statement@.len() - i,
    {
        proof {
            assert(ns.take(i + 1).drop_last() =~= ns.take(i as int));
            assert(ns.take(i + 1).last() == ns[i as int]);
            lemma_lower_stmt_counter(ns.take(i as int), variables@, c0);
            lemma_weight_stmt_take(ns, i as int);
        }
        match generate_node(&statement[i], variables, counter) {
            Ok(mut ni) => {
                result.append(&mut ni);
            },
            Err(e) => {
                proof {
                    assert(lower_stmt(ns.take(i + 1), variables@, c0) is Err);
                    lemma_lower_stmt_err_prefix(ns, variables@, c0, i + 1);
                }
                return Err(e);
            },
        }
        i = i + 1;
    }
    proof {
        assert(ns.take(statement@.len() as int) =~= ns);
    }
    Ok(result)
}

/// Lowers a sequence of statement-lists in order (the body of a
/// conditional, a loop, or a whole function).
#[verifier::loop_isolation(false)]
#[verifier::rlimit(60)]
pub fn generate_statements(
    stmts: &Vec<Vec<IRNode>>,
    variables: &VariableOffsets,
    counter: &mut u64,
) -> (r: Result<Vec<Instruction>, CodegenError>)
    requires
        variables.wf(),
        *old(counter) + weight_stmts(stmts_view(stmts@)) <= u64::MAX,
    ensures
        match r {
            Ok(v) => {
                &&& lower_stmts(stmts_view(stmts@), variables@, *old(counter) as nat) is Ok
                &&& iviews(v@) == lower_stmts(
                    stmts_view(stmts@),
                    variables@,
                    *old(counter) as nat,
                )->Ok_0.0
                &&& *final(counter) as nat == lower_stmts(
                    stmts_view(stmts@),
                    variables@,
                    *old(counter) as nat,
                )->Ok_0.1
            },
            Err(e) => lower_stmts(stmts_view(stmts@), variables@, *old(counter) as nat) is Err
                && e@ == lower_stmts(stmts_view(stmts@), variables@, *old(counter) as nat)->Err_0,
        },
    decreases stmts@,
{
    broadcast use lemma_iviews_add, lemma_stmts_view_props;

    let ghost sv = stmts_view(stmts@);
    let ghost c0 = *old(counter) as nat;
    let mut result: Vec<Instruction> = Vec::new();
    let mut i: usize = 0;
    proof {
        assert(sv.take(0) =~= Seq::<Seq<NodeV>>::empty());
        assert(iviews(result@) =~= Seq::<InstructionV>::empty());
    }
    while i < stmts.len()
        invariant
            i <= stmts@.len(),
            lower_stmts(sv.take(i as int), variables@, c0) is Ok,
            iviews(result@) == lower_stmts(sv.take(i as int), variables@, c0)->Ok_0.0,
            *counter as nat == lower_stmts(sv.take(i as int), variables@, c0)->Ok_0.1,
        decreases stmts@.len() - i,
    {
        proof {
            assert(sv.take(i + 1).drop_last() =~= sv.take(i as int));
            assert(sv.take(i + 1).last() == sv[i as int]);
            lemma_lower_stmts_counter(sv.take(i as int), variables@, c0);
            lemma_weight_stmts_take(sv, i as int);
        }
        match generate_statement(stmts[i].as_slice(), variables, counter) {
            Ok(mut si) => {
                result.append(&mut si);
            },
            Err(e) => {
                proof {
                    assert(lower_stmts(sv.take(i + 1), variables@, c0) is Err);
                    lemma_lower_stmts_err_prefix(sv, variables@, c0, i + 1);
                }
                return Err(e);
            },
        }
        i = i + 1;
    }
    proof {
        assert(sv.take(stmts@.len() as int) =~= sv);
    }
    Ok(result)
}

/// The fixed prologue of a function: its label, the saved frame
/// pointer, the new frame base, and the reservation of local space.
pub open spec fn prologue_instrs(name: Seq<char>, locals_size: nat) -> Seq<InstructionV> {
    seq![
        InstructionV::Label(name),
        InstructionV::Push("rbp"@),
        InstructionV::Move("rbp"@, "rsp"@),
        InstructionV::Sub("rsp"@, dec_digits(locals_size)),
    ]
}

/// The full lowering of one function: layout, prologue, body, and the
/// unconditional trailing epilogue and return that cover fall-through
/// exits.
pub open spec fn lower_function(f: FuncV, c: nat) -> Result<(Seq<InstructionV>, nat), ErrV> {
    match layout_of(f) {
        Err(e) => Err(e),
        Ok(layout) => match lower_stmts(f.statements, layout.0, c) {
            Err(e) => Err(e),
            Ok(bi) => Ok(
                (
                    prologue_instrs(f.name, layout.1 as nat) + bi.0 + epilogue_instrs() + seq![
                        InstructionV::Return,
                    ],
                    bi.1,
                ),
            ),
        },
    }
}

/// Lowers one whole function: resolves its stack layout, emits the
/// prologue, lowers every statement-list in order, and closes with the
/// shared epilogue and a return.
pub fn generate_function(func: &IRFunction, counter: &mut u64) -> (r: Result<
    Vec<Instruction>,
    CodegenError,
>)
    requires
        decl_total(func@) <= 0x1000_0000,
        *old(counter) + weight_stmts(func@.statements) <= u64::MAX,
    ensures
        match r {
            Ok(v) => {
                &&& lower_function(func@, *old(counter) as nat) is Ok
                &&& iviews(v@) == lower_function(func@, *old(counter) as nat)->Ok_0.0
                &&& *final(counter) as nat == lower_function(func@, *old(counter) as nat)->Ok_0.1
            },
            Err(e) => lower_function(func@, *old(counter) as nat) is Err && e@ == lower_function(
                func@,
                *old(counter) as nat,
            )->Err_0,
        },
{
    broadcast use lemma_iviews_push, lemma_iviews_add;

    let layout = match generate_offsets(func) {
        Ok(v) => v,
        Err(e) => {
            return Err(e);
        },
    };
    let vars = layout.0;
    let var_offset = layout.1;

    let mut final_asm: Vec<Instruction> = Vec::new();
    final_asm.push(Instruction::Label(func.name.clone()));
    final_asm.push(Instruction::Push(Register::RBP.to_string()));
    final_asm.push(Instruction::Move(Register::RBP.to_string(), Register::RSP.to_string()));
    final_asm.push(Instruction::Sub(Register::RSP.to_string(), dec_string(var_offset as u64)));
    proof {
        assert(iviews(final_asm@) =~= prologue_instrs(func@.name, layout_of(func@)->Ok_0.1 as nat));
    }

    let mut body = match generate_statements(&func.statements, &vars, counter) {
        Ok(v) => v,
        Err(e) => {
            return Err(e);
        },
    };
    final_asm.append(&mut body);
    push_epilogue(&mut final_asm);
    final_asm.push(Instruction::Return);
    proof {
        assert(iviews(final_asm@) =~= lower_function(func@, *old(counter) as nat)->Ok_0.0);
    }
    Ok(final_asm)
}


/// `w` capped just above the size bound.
pub open spec fn capped(w: nat) -> nat {
    if w > 0x1000_0000 {
        0x1000_0001
    } else {
        w
    }
}

fn cap_add(a: u64, b: u64) -> (r: u64)
    requires
        a <= 0x1000_0001,
        b <= 0x1000_0001,
    ensures
        r as nat == capped((a + b) as nat),
{
    if a + b > 0x1000_0000 {
        0x1000_0001
    } else {
        a + b
    }
}

/// Counts the conditionals and loops of one statement, capped just
/// above the size bound.
fn weigh_node(n: &IRNode) -> (r: u64)
    ensures
        r as nat == capped(weight_node(n@)),
    decreases n,
{
    match n {
        IRNode::Conditional(c, body) => cap_add(1, weigh_stmts(body)),
        IRNode::Loop(c, body) => cap_add(1, weigh_stmts(body)),
        _ => 0,
    }
}

#[verifier::loop_isolation(false)]
fn weigh_stmt(ns: &Vec<IRNode>) -> (r: u64)
    ensures
        r as nat == capped(weight_stmt(node_seq_view(ns@))),
    decreases ns@,
{
    broadcast use lemma_node_seq_view_props;

    let ghost nv = node_seq_view(ns@);
    let mut acc: u64 = 0;
    let mut i: usize = 0;
    proof {
        assert(nv.take(0) =~= Seq::<NodeV>::empty());
    }
    while i < ns.len()
        invariant
            i <= ns@.len(),
            acc as nat == capped(weight_stmt(nv.take(i as int))),
        decreases ns@.len() - i,
    {
        proof {
            assert(nv.take(i + 1).drop_last() =~= nv.take(i as int));
            assert(nv.take(i + 1).last() == nv[i as int]);
        }
        let ghost w_pre = weight_stmt(nv.take(i as int));
        let ghost w_here = weight_node(nv[i as int]);
        proof {
            lemma_node_seq_view_props(ns@);
            assert(node_seq_view(ns@)[i as int] == node_view(ns@[i as int]));
        }
        acc = cap_add(acc, weigh_node(&ns[i]));
        proof {
            assert(weight_stmt(nv.take(i + 1)) == w_pre + w_here);
            assert(acc as nat == capped((capped(w_pre) + capped(w_here)) as nat));
            assert(capped((capped(w_pre) + capped(w_here)) as nat) == capped((w_pre + w_here) as nat));
        }
        i = i + 1;
    }
    proof {
        assert(nv.take(ns@.len() as int) =~= nv);
    }
    acc
}

#[verifier::loop_isolation(false)]
fn weigh_stmts(ss: &Vec<Vec<IRNode>>) -> (r: u64)
    ensures
        r as nat == capped(weight_stmts(stmts_view(ss@))),
    decreases ss@,
{
    broadcast use lemma_stmts_view_props;

    let ghost sv = stmts_view(ss@);
    let mut acc: u64 = 0;
    let mut i: usize = 0;
    proof {
        assert(sv.take(0) =~= Seq::<Seq<NodeV>>::empty());
    }
    while i < ss.len()
        invariant
            i <= ss@.len(),
            acc as nat == capped(weight_stmts(sv.take(i as int))),
        decreases ss@.len() - i,
    {
        proof {
            assert(sv.take(i + 1).drop_last() =~= sv.take(i as int));
            assert(sv.take(i + 1).last() == sv[i as int]);
        }
        let ghost w_pre = weight_stmts(sv.take(i as int));
        let ghost w_here = weight_stmt(sv[i as int]);
        proof {
            lemma_stmts_view_props(ss@);
            assert(stmts_view(ss@)[i as int] == node_seq_view(ss@[i as int]@));
        }
        acc = cap_add(acc, weigh_stmt(&ss[i]));
        proof {
            assert(weight_stmts(sv.take(i + 1)) == w_pre + w_here);
            assert(acc as nat == capped((capped(w_pre) + capped(w_here)) as nat));
        }
        i = i + 1;
    }
    proof {
        assert(sv.take(ss@.len() as int) =~= sv);
    }
    acc
}

/// Counts the label pairs a function's lowering will consume, capped
/// just above the size bound.
pub fn function_weight(func: &IRFunction) -> (r: u64)
    ensures
        r as nat == capped(weight_stmts(func@.statements)),
{
    weigh_stmts(&func.statements)
}

} // verus!
