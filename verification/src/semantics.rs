//! A small operational model of the emitted assembly — accumulator,
//! scratch register, stack, comparison flags, and branches to labels —
//! together with the behavioural laws of the code generator: a
//! conditional's guard branches to the one label it defines, a loop
//! whose comparison is initially false runs none of its body, and
//! folding a constant expression preserves the value the emitted code
//! computes.

use vstd::prelude::*;
use vstd::arithmetic::div_mod::lemma_small_mod;
use crate::decimal::{dec_digits, lemma_dec_digits_injective};
use crate::instructions::InstructionV;
use crate::ir::{CmpV, ExprV, IROperation, IRValue, NodeV};
use crate::errors::ErrV;
use crate::expression::{cleanup_instrs, lower_args_rev, lower_expr};
use crate::conditionals::{
    direct_branch, inverse_branch, lower_cmp_operands, lower_inverse_jump, lower_jump,
};
use crate::function::{
    end_label, epilogue_instrs, lower_node, lower_stmt, lower_stmts, top_label, weight_node,
};
use crate::optimizer::{fold_expr, fold_val};

verus! {

/// The modulus of the machine word.
pub open spec fn word_base() -> nat {
    0x1_0000_0000_0000_0000
}

/// The value a decimal immediate operand denotes, if it is one.
pub open spec fn imm_value(s: Seq<char>) -> Option<nat> {
    if exists|n: nat| n < word_base() && dec_digits(n) == s {
        Some(choose|n: nat| n < word_base() && dec_digits(n) == s)
    } else {
        None
    }
}

/// A rendered value reads back as itself.
pub proof fn lemma_imm_value_dec(n: nat)
    requires
        n < word_base(),
    ensures
        imm_value(dec_digits(n)) == Some(n),
{
    assert(exists|m: nat| m < word_base() && dec_digits(m) == dec_digits(n));
    let m = choose|m: nat| m < word_base() && dec_digits(m) == dec_digits(n);
    lemma_dec_digits_injective(m, n);
}

/// The first character of a decimal rendering is a digit, so a
/// rendering is never a register name.
proof fn lemma_dec_digits_first_digit(n: nat)
    ensures
        dec_digits(n).len() >= 1,
        dec_digits(n)[0] != 'r',
    decreases n,
{
    if n >= 10 {
        lemma_dec_digits_first_digit(n / 10);
        assert(dec_digits(n)[0] == dec_digits(n / 10)[0]);
    }
}

proof fn lemma_dec_digits_not_rbx(n: nat)
    ensures
        dec_digits(n) != "rbx"@,
{
    reveal_strlit("rbx");
    lemma_dec_digits_first_digit(n);
    assert("rbx"@[0] == 'r');
}

/// The registers, stack, comparison flags and program counter of the
/// modelled machine.
#[verifier::ext_equal]
pub struct MachineState {
    pub pc: int,
    pub rax: nat,
    pub rbx: nat,
    pub stack: Seq<nat>,
    pub flags: Option<(nat, nat)>,
}

/// The position of the first definition of label `t` at or after
/// position `i`, or `-1` if there is none.
pub open spec fn find_label_from(prog: Seq<InstructionV>, t: Seq<char>, i: int) -> int
    decreases prog.len() - i,
{
    if !(0 <= i < prog.len()) {
        -1
    } else if prog[i] == InstructionV::Label(t) {
        i
    } else {
        find_label_from(prog, t, i + 1)
    }
}

/// The label a branch instruction names.
pub open spec fn jump_target(i: InstructionV) -> Option<Seq<char>> {
    match i {
        InstructionV::Je(t) => Some(t),
        InstructionV::Jne(t) => Some(t),
        InstructionV::Jle(t) => Some(t),
        InstructionV::Jg(t) => Some(t),
        _ => None,
    }
}

/// One machine step of the fragment of the instruction set the code
/// generator emits for expressions and guards.  Comments and label
/// definitions fall through; a taken branch moves the program counter
/// to the label's definition.
pub open spec fn step(prog: Seq<InstructionV>, st: MachineState) -> Option<MachineState> {
    if !(0 <= st.pc < prog.len()) {
        None
    } else {
        let next = MachineState { pc: st.pc + 1, ..st };
        match prog[st.pc] {
            InstructionV::Comment(a) => Some(next),
            InstructionV::Label(a) => Some(next),
            InstructionV::Move(d, src) => if d == "rax"@ && src == "rbx"@ {
                Some(MachineState { rax: st.rbx, ..next })
            } else if d == "rbx"@ && src == "rax"@ {
                Some(MachineState { rbx: st.rax, ..next })
            } else if d == "rax"@ && imm_value(src) is Some {
                Some(MachineState { rax: imm_value(src)->0, ..next })
            } else {
                None
            },
            InstructionV::Push(r) => if r == "rax"@ {
                Some(MachineState { stack: st.stack.push(st.rax), ..next })
            } else {
                None
            },
            InstructionV::Pop(r) => if st.stack.len() == 0 {
                None
            } else if r == "rax"@ {
                Some(MachineState { rax: st.stack.last(), stack: st.stack.drop_last(), ..next })
            } else if r == "rbx"@ {
                Some(MachineState { rbx: st.stack.last(), stack: st.stack.drop_last(), ..next })
            } else {
                None
            },
            InstructionV::Add(d, srg) => if d == "rax"@ && srg == "rbx"@ {
                Some(MachineState { rax: (st.rax + st.rbx) % word_base(), ..next })
            } else {
                None
            },
            InstructionV::Sub(d, srg) => if d == "rax"@ && srg == "rbx"@ {
                Some(
                    MachineState {
                        rax: if st.rax >= st.rbx {
                            (st.rax - st.rbx) as nat
                        } else {
                            (st.rax + word_base() - st.rbx) as nat
                        },
                        ..next
                    },
                )
            } else {
                None
            },
            InstructionV::Cmp(a, b) => if a == "rbx"@ && b == "rax"@ {
                Some(MachineState { flags: Some((st.rbx, st.rax)), ..next })
            } else {
                None
            },
            InstructionV::Je(t) => branch(prog, st, t, match st.flags {
                Some(f) => f.0 == f.1,
                None => false,
            }),
            InstructionV::Jne(t) => branch(prog, st, t, match st.flags {
                Some(f) => f.0 != f.1,
                None => false,
            }),
            InstructionV::Jg(t) => branch(prog, st, t, match st.flags {
                Some(f) => f.0 > f.1,
                None => false,
            }),
            InstructionV::Jle(t) => branch(prog, st, t, match st.flags {
                Some(f) => f.0 <= f.1,
                None => false,
            }),
            _ => None,
        }
    }
}

/// A branch: taken, it moves to the label's definition (getting stuck
/// if the label is undefined); not taken, it falls through.  A branch
/// before any comparison is stuck.
pub open spec fn branch(
    prog: Seq<InstructionV>,
    st: MachineState,
    t: Seq<char>,
    taken: bool,
) -> Option<MachineState> {
    if st.flags is None {
        None
    } else if taken {
        let l = find_label_from(prog, t, 0);
        if l >= 0 {
            Some(MachineState { pc: l, ..st })
        } else {
            None
        }
    } else {
        Some(MachineState { pc: st.pc + 1, ..st })
    }
}

/// `n` machine steps, or `None` if the machine gets stuck first.
pub open spec fn run_steps(prog: Seq<InstructionV>, st: MachineState, n: nat) -> Option<
    MachineState,
>
    decreases n,
{
    if n == 0 {
        Some(st)
    } else {
        match step(prog, st) {
            None => None,
            Some(s2) => run_steps(prog, s2, (n - 1) as nat),
        }
    }
}

proof fn lemma_find_label_skip(prog: Seq<InstructionV>, t: Seq<char>, i: int, j: int)
    requires
        0 <= i <= j <= prog.len(),
        forall|k: int| i <= k < j ==> prog[k] != InstructionV::Label(t),
    ensures
        find_label_from(prog, t, i) == find_label_from(prog, t, j),
    decreases j - i,
{
    if i < j {
        lemma_find_label_skip(prog, t, i + 1, j);
    }
}

/// A sequence of instructions that defines no label.
pub open spec fn label_free(s: Seq<InstructionV>) -> bool {
    forall|k: int| 0 <= k < s.len() ==> !((#[trigger] s[k]) is Label)
}

proof fn lemma_label_free_add(a: Seq<InstructionV>, b: Seq<InstructionV>)
    requires
        label_free(a),
        label_free(b),
    ensures
        label_free(a + b),
{
    assert forall|k: int| 0 <= k < (a + b).len() implies !((#[trigger] (a + b)[k]) is Label) by {
        if k < a.len() {
            assert((a + b)[k] == a[k]);
        } else {
            assert((a + b)[k] == b[k - a.len()]);
        }
    }
}

/// Expression lowering defines no labels.
pub proof fn lemma_lower_expr_label_free(e: ExprV, vars: Map<Seq<char>, int>)
    requires
        lower_expr(e, vars) is Ok,
    ensures
        label_free(lower_expr(e, vars)->Ok_0),
    decreases e,
{
    match e {
        ExprV::Operation(op, es) => {
            lemma_lower_expr_label_free(es[0], vars);
            lemma_lower_expr_label_free(es[1], vars);
            let fi = lower_expr(es[0], vars)->Ok_0;
            let si = lower_expr(es[1], vars)->Ok_0;
            lemma_label_free_add(fi, seq![InstructionV::Push("rax"@)]);
            lemma_label_free_add(fi + seq![InstructionV::Push("rax"@)], si);
            match op {
                IROperation::Add => {
                    lemma_label_free_add(
                        fi + seq![InstructionV::Push("rax"@)] + si,
                        seq![
                            InstructionV::Move("rbx"@, "rax"@),
                            InstructionV::Pop("rax"@),
                            InstructionV::Add("rax"@, "rbx"@),
                        ],
                    );
                },
                IROperation::Sub => {
                    lemma_label_free_add(
                        fi + seq![InstructionV::Push("rax"@)] + si,
                        seq![
                            InstructionV::Move("rbx"@, "rax"@),
                            InstructionV::Pop("rax"@),
                            InstructionV::Sub("rax"@, "rbx"@),
                        ],
                    );
                },
                _ => {},
            }
        },
        ExprV::Call(name, args) => {
            lemma_lower_args_label_free(args, vars);
            let ai = lower_args_rev(args, vars)->Ok_0;
            lemma_label_free_add(ai, seq![InstructionV::Call(name)]);
            lemma_label_free_add(ai + seq![InstructionV::Call(name)], cleanup_instrs(args.len()));
        },
        _ => {},
    }
}

proof fn lemma_lower_args_label_free(args: Seq<ExprV>, vars: Map<Seq<char>, int>)
    requires
        lower_args_rev(args, vars) is Ok,
    ensures
        label_free(lower_args_rev(args, vars)->Ok_0),
    decreases args,
{
    if args.len() > 0 {
        lemma_lower_expr_label_free(args.last(), vars);
        lemma_lower_args_label_free(args.drop_last(), vars);
        let li = lower_expr(args.last(), vars)->Ok_0;
        lemma_label_free_add(li, seq![InstructionV::Push("rax"@)]);
        lemma_label_free_add(
            li + seq![InstructionV::Push("rax"@)],
            lower_args_rev(args.drop_last(), vars)->Ok_0,
        );
    }
}

/// Comparison operand evaluation defines no labels.
pub proof fn lemma_lower_cmp_label_free(c: CmpV, vars: Map<Seq<char>, int>)
    requires
        lower_cmp_operands(c, vars) is Ok,
    ensures
        label_free(lower_cmp_operands(c, vars)->Ok_0),
{
    let (l, r) = match c {
        CmpV::Equals(l, r) => (l, r),
        CmpV::GreaterThan(l, r) => (l, r),
    };
    lemma_lower_expr_label_free(l, vars);
    lemma_lower_expr_label_free(r, vars);
    let li = lower_expr(l, vars)->Ok_0;
    let ri = lower_expr(r, vars)->Ok_0;
    lemma_label_free_add(li, seq![InstructionV::Push("rax"@)]);
    lemma_label_free_add(li + seq![InstructionV::Push("rax"@)], ri);
    lemma_label_free_add(
        li + seq![InstructionV::Push("rax"@)] + ri,
        seq![InstructionV::Pop("rbx"@), InstructionV::Cmp("rbx"@, "rax"@)],
    );
}

/// Lowering a statement that contains no conditionals or loops
/// defines no labels.
proof fn lemma_straight_node_label_free(n: NodeV, vars: Map<Seq<char>, int>, c: nat)
    requires
        lower_node(n, vars, c) is Ok,
        weight_node(n) == 0,
    ensures
        label_free(lower_node(n, vars, c)->Ok_0.0),
    decreases n,
{
    match n {
        NodeV::Assignment(name, e) => {
            lemma_lower_expr_label_free(e, vars);
            let ei = lower_expr(e, vars)->Ok_0;
            lemma_label_free_add(seq![InstructionV::Comment("Assignment"@)], ei);
            lemma_label_free_add(
                seq![InstructionV::Comment("Assignment"@)] + ei,
                seq![InstructionV::Move(crate::expression::mem_operand(vars[name]), "rax"@)],
            );
        },
        NodeV::Return(raw) => {
            match raw {
                Some(e) => {
                    lemma_lower_expr_label_free(e, vars);
                    let ei = lower_expr(e, vars)->Ok_0;
                    lemma_label_free_add(seq![InstructionV::Comment("Return"@)], ei);
                    lemma_label_free_add(
                        seq![InstructionV::Comment("Return"@)] + ei,
                        epilogue_instrs(),
                    );
                    lemma_label_free_add(
                        seq![InstructionV::Comment("Return"@)] + ei + epilogue_instrs(),
                        seq![InstructionV::Return],
                    );
                },
                None => {
                    lemma_label_free_add(
                        seq![InstructionV::Comment("Return"@)],
                        epilogue_instrs(),
                    );
                    lemma_label_free_add(
                        seq![InstructionV::Comment("Return"@)] + epilogue_instrs(),
                        seq![InstructionV::Return],
                    );
                },
            }
        },
        NodeV::SingleExpression(e) => {
            lemma_lower_expr_label_free(e, vars);
            lemma_label_free_add(
                seq![InstructionV::Comment("Single-Expression"@)],
                lower_expr(e, vars)->Ok_0,
            );
        },
        _ => {},
    }
}

/// The top and end labels of one loop differ.
proof fn lemma_top_end_labels_differ(c: nat)
    ensures
        top_label(c) != end_label(c),
{
    reveal_strlit("L");
    reveal_strlit("_TOP");
    reveal_strlit("_END");
    let t = top_label(c);
    let e = end_label(c);
    let p: int = 1 + dec_digits(c).len() as int;
    assert(t[p + 1] == "_TOP"@[1]);
    assert(e[p + 1] == "_END"@[1]);
    assert("_TOP"@[1] == 'T');
    assert("_END"@[1] == 'E');
}

/// End labels of distinct conditionals or loops differ.
proof fn lemma_end_label_injective(c: nat, k: nat)
    requires
        end_label(c) == end_label(k),
    ensures
        c == k,
{
    reveal_strlit("L");
    reveal_strlit("_END");
    let a = dec_digits(c);
    let b = dec_digits(k);
    assert(end_label(c).len() == 1 + a.len() + 4);
    assert(end_label(k).len() == 1 + b.len() + 4);
    assert(a.len() == b.len());
    assert forall|i: int| 0 <= i < a.len() implies a[i] == b[i] by {
        assert(end_label(c)[1 + i] == a[i]);
        assert(end_label(k)[1 + i] == b[i]);
    }
    assert(a =~= b);
    lemma_dec_digits_injective(c, k);
}

/// An end label never equals any top label.
proof fn lemma_end_top_distinct(c: nat, k: nat)
    ensures
        end_label(c) != top_label(k),
{
    reveal_strlit("L");
    reveal_strlit("_TOP");
    reveal_strlit("_END");
    let a = dec_digits(c);
    let b = dec_digits(k);
    if end_label(c) == top_label(k) {
        assert(end_label(c).len() == 1 + a.len() + 4);
        assert(top_label(k).len() == 1 + b.len() + 4);
        assert(a.len() == b.len());
        let p: int = 1 + a.len() as int;
        assert(end_label(c)[p + 1] == "_END"@[1]);
        assert(top_label(k)[p + 1] == "_TOP"@[1]);
        assert("_END"@[1] == 'E');
        assert("_TOP"@[1] == 'T');
    }
}

/// Every label that lowering emits belongs to a conditional or loop
/// whose counter lies in the given range.
pub open spec fn labels_in_range(s: Seq<InstructionV>, lo: nat, hi: nat) -> bool {
    forall|k: int|
        0 <= k < s.len() && (#[trigger] s[k]) is Label ==> exists|c: nat|
            lo <= c < hi && (s[k]->Label_0 == top_label(c) || s[k]->Label_0 == end_label(c))
}

proof fn lemma_labels_in_range_add(a: Seq<InstructionV>, b: Seq<InstructionV>, lo: nat, hi: nat)
    requires
        labels_in_range(a, lo, hi),
        labels_in_range(b, lo, hi),
    ensures
        labels_in_range(a + b, lo, hi),
{
    assert forall|k: int|
        0 <= k < (a + b).len() && (#[trigger] (a + b)[k]) is Label implies exists|c: nat|
        lo <= c < hi && ((a + b)[k]->Label_0 == top_label(c) || (a + b)[k]->Label_0 == end_label(
            c,
        )) by {
        if k < a.len() {
            assert((a + b)[k] == a[k]);
        } else {
            assert((a + b)[k] == b[k - a.len()]);
        }
    }
}

proof fn lemma_labels_in_range_widen(s: Seq<InstructionV>, lo: nat, hi: nat, lo2: nat, hi2: nat)
    requires
        labels_in_range(s, lo, hi),
        lo2 <= lo,
        hi <= hi2,
    ensures
        labels_in_range(s, lo2, hi2),
{
}

proof fn lemma_label_free_in_range(s: Seq<InstructionV>, lo: nat, hi: nat)
    requires
        label_free(s),
    ensures
        labels_in_range(s, lo, hi),
{
}

/// Lowering one statement emits only labels numbered from its starting
/// counter up to (excluding) its final counter.
proof fn lemma_lower_node_labels(n: NodeV, vars: Map<Seq<char>, int>, c: nat)
    requires
        lower_node(n, vars, c) is Ok,
    ensures
        labels_in_range(
            lower_node(n, vars, c)->Ok_0.0,
            c,
            lower_node(n, vars, c)->Ok_0.1,
        ),
    decreases n,
{
    let out = lower_node(n, vars, c)->Ok_0;
    match n {
        NodeV::Conditional(cmp, body) => {
            let ji = lower_inverse_jump(cmp, end_label(c), vars)->Ok_0;
            let bi = lower_stmts(body, vars, c + 1)->Ok_0;
            crate::function::lemma_lower_stmts_counter(body, vars, c + 1);
            lemma_lower_cmp_label_free(cmp, vars);
            lemma_lower_stmts_labels(body, vars, c + 1);
            let head = seq![InstructionV::Comment("Conditional"@)];
            lemma_label_free_in_range(head, c, bi.1);
            assert(label_free(ji)) by {
                let ci = lower_cmp_operands(cmp, vars)->Ok_0;
                assert(ji == ci.push(inverse_branch(cmp, end_label(c))));
                assert forall|k: int| 0 <= k < ji.len() implies !((#[trigger] ji[k]) is Label) by {
                    if k < ci.len() {
                        assert(ji[k] == ci[k]);
                    } else {
                        assert(ji[k] == inverse_branch(cmp, end_label(c)));
                    }
                }
            }
            lemma_label_free_in_range(ji, c, bi.1);
            lemma_labels_in_range_widen(bi.0, c + 1, bi.1, c, bi.1);
            lemma_labels_in_range_add(head, ji, c, bi.1);
            lemma_labels_in_range_add(head + ji, bi.0, c, bi.1);
            let tail = seq![InstructionV::Label(end_label(c))];
            assert(labels_in_range(tail, c, bi.1)) by {
                assert(tail[0]->Label_0 == end_label(c));
                assert(c <= c < bi.1);
            }
            lemma_labels_in_range_add(head + ji + bi.0, tail, c, bi.1);
            assert(out.0 == head + ji + bi.0 + tail);
        },
        NodeV::Loop(cmp, body) => {
            let ji = lower_inverse_jump(cmp, end_label(c), vars)->Ok_0;
            let bi = lower_stmts(body, vars, c + 1)->Ok_0;
            let back = lower_jump(cmp, top_label(c), vars)->Ok_0;
            crate::function::lemma_lower_stmts_counter(body, vars, c + 1);
            lemma_lower_cmp_label_free(cmp, vars);
            lemma_lower_stmts_labels(body, vars, c + 1);
            let head = seq![InstructionV::Comment("Loop"@)];
            let ci = lower_cmp_operands(cmp, vars)->Ok_0;
            assert(label_free(ji)) by {
                assert(ji == ci.push(inverse_branch(cmp, end_label(c))));
                assert forall|k: int| 0 <= k < ji.len() implies !((#[trigger] ji[k]) is Label) by {
                    if k < ci.len() {
                        assert(ji[k] == ci[k]);
                    } else {
                        assert(ji[k] == inverse_branch(cmp, end_label(c)));
                    }
                }
            }
            assert(label_free(back)) by {
                assert(back == ci.push(direct_branch(cmp, top_label(c))));
                assert forall|k: int|
                    0 <= k < back.len() implies !((#[trigger] back[k]) is Label) by {
                    if k < ci.len() {
                        assert(back[k] == ci[k]);
                    } else {
                        assert(back[k] == direct_branch(cmp, top_label(c)));
                    }
                }
            }
            lemma_label_free_in_range(head, c, bi.1);
            lemma_label_free_in_range(ji, c, bi.1);
            lemma_label_free_in_range(back, c, bi.1);
            lemma_labels_in_range_widen(bi.0, c + 1, bi.1, c, bi.1);
            let top = seq![InstructionV::Label(top_label(c))];
            assert(labels_in_range(top, c, bi.1)) by {
                assert(top[0]->Label_0 == top_label(c));
                assert(c <= c < bi.1);
            }
            let tail = seq![InstructionV::Label(end_label(c))];
            assert(labels_in_range(tail, c, bi.1)) by {
                assert(tail[0]->Label_0 == end_label(c));
                assert(c <= c < bi.1);
            }
            lemma_labels_in_range_add(head, ji, c, bi.1);
            lemma_labels_in_range_add(head + ji, top, c, bi.1);
            lemma_labels_in_range_add(head + ji + top, bi.0, c, bi.1);
            lemma_labels_in_range_add(head + ji + top + bi.0, back, c, bi.1);
            lemma_labels_in_range_add(head + ji + top + bi.0 + back, tail, c, bi.1);
            assert(out.0 == head + ji + top + bi.0 + back + tail);
        },
        _ => {
            crate::function::lemma_lower_node_counter(n, vars, c);
            lemma_straight_node_label_free(n, vars, c);
            lemma_label_free_in_range(out.0, c, out.1);
        },
    }
}

proof fn lemma_lower_stmt_labels(s: Seq<NodeV>, vars: Map<Seq<char>, int>, c: nat)
    requires
        lower_stmt(s, vars, c) is Ok,
    ensures
        labels_in_range(
            lower_stmt(s, vars, c)->Ok_0.0,
            c,
            lower_stmt(s, vars, c)->Ok_0.1,
        ),
    decreases s,
{
    if s.len() == 0 {
        lemma_label_free_in_range(Seq::empty(), c, c);
    } else {
        let pre = lower_stmt(s.drop_last(), vars, c)->Ok_0;
        let ni = lower_node(s.last(), vars, pre.1)->Ok_0;
        lemma_lower_stmt_labels(s.drop_last(), vars, c);
        lemma_lower_node_labels(s.last(), vars, pre.1);
        crate::function::lemma_lower_stmt_counter(s.drop_last(), vars, c);
        crate::function::lemma_lower_node_counter(s.last(), vars, pre.1);
        lemma_labels_in_range_widen(pre.0, c, pre.1, c, ni.1);
        lemma_labels_in_range_widen(ni.0, pre.1, ni.1, c, ni.1);
        lemma_labels_in_range_add(pre.0, ni.0, c, ni.1);
    }
}

proof fn lemma_lower_stmts_labels(s: Seq<Seq<NodeV>>, vars: Map<Seq<char>, int>, c: nat)
    requires
        lower_stmts(s, vars, c) is Ok,
    ensures
        labels_in_range(
            lower_stmts(s, vars, c)->Ok_0.0,
            c,
            lower_stmts(s, vars, c)->Ok_0.1,
        ),
    decreases s,
{
    if s.len() == 0 {
        lemma_label_free_in_range(Seq::empty(), c, c);
    } else {
        let pre = lower_stmts(s.drop_last(), vars, c)->Ok_0;
        let ni = lower_stmt(s.last(), vars, pre.1)->Ok_0;
        lemma_lower_stmts_labels(s.drop_last(), vars, c);
        lemma_lower_stmt_labels(s.last(), vars, pre.1);
        crate::function::lemma_lower_stmts_counter(s.drop_last(), vars, c);
        crate::function::lemma_lower_stmt_counter(s.last(), vars, pre.1);
        lemma_labels_in_range_widen(pre.0, c, pre.1, c, ni.1);
        lemma_labels_in_range_widen(ni.0, pre.1, ni.1, c, ni.1);
        lemma_labels_in_range_add(pre.0, ni.0, c, ni.1);
    }
}

/// No instruction of a body lowered from counter `c + 1` on defines
/// the end label numbered `c`.
proof fn lemma_body_avoids_end_label(bi: Seq<InstructionV>, lo: nat, hi: nat, c: nat)
    requires
        labels_in_range(bi, lo, hi),
        c < lo,
    ensures
        forall|k: int| 0 <= k < bi.len() ==> bi[k] != InstructionV::Label(end_label(c)),
{
    assert forall|k: int|
        0 <= k < bi.len() implies bi[k] != InstructionV::Label(end_label(c)) by {
        if bi[k] is Label {
            let cc = choose|cc: nat|
                lo <= cc < hi && (bi[k]->Label_0 == top_label(cc) || bi[k]->Label_0 == end_label(
                    cc,
                ));
            if bi[k]->Label_0 == top_label(cc) {
                lemma_end_top_distinct(c, cc);
            } else {
                if bi[k]->Label_0 == end_label(c) {
                    lemma_end_label_injective(c, cc);
                }
            }
        }
    }
}

/// Law: a conditional defines the label its guarding inverse branch
/// targets exactly once — as the last instruction of its lowering —
/// and that branch names exactly that label.  Labels defined inside
/// the body belong to nested conditionals and loops and carry higher
/// counters, so they never capture the guard's jump.
pub proof fn lemma_conditional_single_label(
    cmp: CmpV,
    body: Seq<Seq<NodeV>>,
    vars: Map<Seq<char>, int>,
    c: nat,
)
    requires
        lower_node(NodeV::Conditional(cmp, body), vars, c) is Ok,
    ensures
        lower_node(NodeV::Conditional(cmp, body), vars, c)->Ok_0.0.last() == InstructionV::Label(
            end_label(c),
        ),
        forall|k: int|
            0 <= k < lower_node(NodeV::Conditional(cmp, body), vars, c)->Ok_0.0.len() - 1
                ==> #[trigger] lower_node(NodeV::Conditional(cmp, body), vars, c)->Ok_0.0[k]
                != InstructionV::Label(end_label(c)),
        jump_target(
            lower_node(NodeV::Conditional(cmp, body), vars, c)->Ok_0.0[lower_inverse_jump(
                cmp,
                end_label(c),
                vars,
            )->Ok_0.len() as int],
        ) == Some(end_label(c)),
{
    let ji = lower_inverse_jump(cmp, end_label(c), vars)->Ok_0;
    let bres = lower_stmts(body, vars, c + 1)->Ok_0;
    let bi = bres.0;
    let prog = lower_node(NodeV::Conditional(cmp, body), vars, c)->Ok_0.0;
    assert(prog == seq![InstructionV::Comment("Conditional"@)] + ji + bi + seq![
        InstructionV::Label(end_label(c)),
    ]);
    lemma_lower_cmp_label_free(cmp, vars);
    let ci = lower_cmp_operands(cmp, vars)->Ok_0;
    assert(ji == ci.push(inverse_branch(cmp, end_label(c))));
    lemma_lower_stmts_labels(body, vars, c + 1);
    lemma_body_avoids_end_label(bi, c + 1, bres.1, c);
    assert(prog.last() == InstructionV::Label(end_label(c)));
    assert forall|k: int|
        0 <= k < prog.len() - 1 implies #[trigger] prog[k] != InstructionV::Label(
        end_label(c),
    ) by {
        if k == 0 {
            assert(prog[k] == InstructionV::Comment("Conditional"@));
        } else if k < 1 + ji.len() {
            assert(prog[k] == ji[k - 1]);
            if k - 1 < ci.len() {
                assert(ji[k - 1] == ci[k - 1]);
                assert(!(ci[k - 1] is Label));
            } else {
                assert(ji[k - 1] == inverse_branch(cmp, end_label(c)));
            }
        } else {
            assert(prog[k] == bi[k - 1 - ji.len()]);
        }
    }
    assert(prog[ji.len() as int] == ji[ji.len() - 1]);
    assert(ji[ji.len() - 1] == inverse_branch(cmp, end_label(c)));
}

/// A comparison of two literals that does not hold up front.
pub open spec fn initially_false_literal(cmp: CmpV) -> bool {
    match cmp {
        CmpV::Equals(l, r) => match (l, r) {
            (ExprV::Value(IRValue::Number(a)), ExprV::Value(IRValue::Number(b))) => a != b,
            _ => false,
        },
        CmpV::GreaterThan(l, r) => match (l, r) {
            (ExprV::Value(IRValue::Number(a)), ExprV::Value(IRValue::Number(b))) => a <= b,
            _ => false,
        },
    }
}

/// Law: a loop whose literal comparison is initially false executes no
/// body instruction: the trace steps through the seven guard
/// instructions (the comment, the two operand loads with the push and
/// pop around them, the compare, and the inverse branch) and lands
/// directly on the end label, the loop's last instruction.
#[verifier::rlimit(100)]
pub proof fn lemma_loop_initially_false_skips_body(
    cmp: CmpV,
    body: Seq<Seq<NodeV>>,
    vars: Map<Seq<char>, int>,
    c: nat,
    st: MachineState,
)
    requires
        lower_node(NodeV::Loop(cmp, body), vars, c) is Ok,
        initially_false_literal(cmp),
        st.pc == 0,
    ensures
        forall|k: int|
            0 <= k <= 6 ==> #[trigger] run_steps(
                lower_node(NodeV::Loop(cmp, body), vars, c)->Ok_0.0,
                st,
                k as nat,
            ) is Some && run_steps(
                lower_node(NodeV::Loop(cmp, body), vars, c)->Ok_0.0,
                st,
                k as nat,
            )->0.pc == k,
        run_steps(lower_node(NodeV::Loop(cmp, body), vars, c)->Ok_0.0, st, 7) is Some,
        run_steps(lower_node(NodeV::Loop(cmp, body), vars, c)->Ok_0.0, st, 7)->0.pc == lower_node(
            NodeV::Loop(cmp, body),
            vars,
            c,
        )->Ok_0.0.len() - 1,
        lower_node(NodeV::Loop(cmp, body), vars, c)->Ok_0.0.last() == InstructionV::Label(
            end_label(c),
        ),
{
    let (a, b) = match cmp {
        CmpV::Equals(ExprV::Value(IRValue::Number(a)), ExprV::Value(IRValue::Number(b))) => (
            a,
            b,
        ),
        CmpV::GreaterThan(
            ExprV::Value(IRValue::Number(a)),
            ExprV::Value(IRValue::Number(b)),
        ) => (a, b),
        _ => (0u64, 0u64),
    };
    let ji = lower_inverse_jump(cmp, end_label(c), vars)->Ok_0;
    let bi = lower_stmts(body, vars, c + 1)->Ok_0.0;
    let back = lower_jump(cmp, top_label(c), vars)->Ok_0;
    let prog = lower_node(NodeV::Loop(cmp, body), vars, c)->Ok_0.0;
    let ci = lower_cmp_operands(cmp, vars)->Ok_0;
    assert(ci =~= seq![
        InstructionV::Move("rax"@, dec_digits(a as nat)),
        InstructionV::Push("rax"@),
        InstructionV::Move("rax"@, dec_digits(b as nat)),
        InstructionV::Pop("rbx"@),
        InstructionV::Cmp("rbx"@, "rax"@),
    ]);
    assert(ji == ci.push(inverse_branch(cmp, end_label(c))));
    assert(back == ci.push(direct_branch(cmp, top_label(c))));
    assert(prog == seq![InstructionV::Comment("Loop"@)] + ji + seq![
        InstructionV::Label(top_label(c)),
    ] + bi + back + seq![InstructionV::Label(end_label(c))]);
    lemma_lower_stmts_labels(body, vars, c + 1);
    lemma_body_avoids_end_label(bi, c + 1, lower_stmts(body, vars, c + 1)->Ok_0.1, c);
    lemma_top_end_labels_differ(c);

    let n = prog.len() as int;
    assert(n == 9 + bi.len() + back.len());
    assert(prog[0] == InstructionV::Comment("Loop"@));
    assert(prog[1] == ci[0]);
    assert(prog[2] == ci[1]);
    assert(prog[3] == ci[2]);
    assert(prog[4] == ci[3]);
    assert(prog[5] == ci[4]);
    assert(prog[6] == inverse_branch(cmp, end_label(c)));
    assert(prog[7] == InstructionV::Label(top_label(c)));
    assert(prog.last() == InstructionV::Label(end_label(c)));

    // the end label is defined only at the last position
    assert forall|k: int| 0 <= k < n - 1 implies prog[k] != InstructionV::Label(end_label(c)) by {
        if 8 <= k < 8 + bi.len() {
            assert(prog[k] == bi[k - 8]);
        } else if 8 + bi.len() <= k < n - 1 {
            assert(prog[k] == back[k - 8 - bi.len()]);
            if k - 8 - bi.len() < ci.len() {
                assert(back[k - 8 - bi.len()] == ci[k - 8 - bi.len()]);
            } else {
                assert(back[k - 8 - bi.len()] == direct_branch(cmp, top_label(c)));
            }
        }
    }
    lemma_find_label_skip(prog, end_label(c), 0, n - 1);
    assert(find_label_from(prog, end_label(c), 0) == n - 1);

    lemma_imm_value_dec(a as nat);
    lemma_imm_value_dec(b as nat);
    lemma_dec_digits_not_rbx(a as nat);
    lemma_dec_digits_not_rbx(b as nat);
    reveal_strlit("rax");
    reveal_strlit("rbx");
    assert("rax"@ != "rbx"@) by {
        reveal_strlit("rax");
        reveal_strlit("rbx");
        assert("rax"@[1] == 'a');
        assert("rbx"@[1] == 'b');
    }

    let s0 = st;
    let s1 = MachineState { pc: 1, ..s0 };
    let s2 = MachineState { pc: 2, rax: a as nat, ..s1 };
    let s3 = MachineState { pc: 3, stack: s2.stack.push(a as nat), ..s2 };
    let s4 = MachineState { pc: 4, rax: b as nat, ..s3 };
    let s5 = MachineState { pc: 5, rbx: a as nat, stack: s2.stack, ..s4 };
    let s6 = MachineState { pc: 6, flags: Some((a as nat, b as nat)), ..s5 };
    let s7 = MachineState { pc: n - 1, ..s6 };
    assert(step(prog, s0) == Some(s1));
    assert(imm_value(dec_digits(a as nat)) == Some(a as nat));
    assert(step(prog, s1)->0 =~= s2);
    assert(step(prog, s1) == Some(s2));
    assert(step(prog, s2)->0 =~= s3);
    assert(step(prog, s2) == Some(s3));
    assert(step(prog, s3)->0 =~= s4);
    assert(step(prog, s3) == Some(s4));
    assert(s4.stack.len() > 0);
    assert(s4.stack.last() == a as nat);
    assert(s4.stack.drop_last() =~= s2.stack);
    assert(step(prog, s4)->0 =~= s5);
    assert(step(prog, s4) == Some(s5));
    assert(step(prog, s5)->0 =~= s6);
    assert(step(prog, s5) == Some(s6));
    assert(step(prog, s6) is Some && step(prog, s6)->0 =~= s7) by {
        match cmp {
            CmpV::Equals(l, r) => {
                assert(prog[6] == InstructionV::Jne(end_label(c)));
                assert(a != b);
            },
            CmpV::GreaterThan(l, r) => {
                assert(prog[6] == InstructionV::Jle(end_label(c)));
                assert(a <= b);
            },
        }
    }
    assert(step(prog, s6) == Some(s7));
    assert(run_steps(prog, s0, 1) == run_steps(prog, s1, 0));
    assert(run_steps(prog, s0, 2) == run_steps(prog, s1, 1));
    assert(run_steps(prog, s0, 3) == run_steps(prog, s1, 2));
    assert(run_steps(prog, s0, 4) == run_steps(prog, s1, 3));
    assert(run_steps(prog, s0, 5) == run_steps(prog, s1, 4));
    assert(run_steps(prog, s0, 6) == run_steps(prog, s1, 5));
    assert(run_steps(prog, s0, 7) == run_steps(prog, s1, 6));
    assert(run_steps(prog, s1, 1) == run_steps(prog, s2, 0));
    assert(run_steps(prog, s1, 2) == run_steps(prog, s2, 1));
    assert(run_steps(prog, s1, 3) == run_steps(prog, s2, 2));
    assert(run_steps(prog, s1, 4) == run_steps(prog, s2, 3));
    assert(run_steps(prog, s1, 5) == run_steps(prog, s2, 4));
    assert(run_steps(prog, s1, 6) == run_steps(prog, s2, 5));
    assert(run_steps(prog, s2, 1) == run_steps(prog, s3, 0));
    assert(run_steps(prog, s2, 2) == run_steps(prog, s3, 1));
    assert(run_steps(prog, s2, 3) == run_steps(prog, s3, 2));
    assert(run_steps(prog, s2, 4) == run_steps(prog, s3, 3));
    assert(run_steps(prog, s2, 5) == run_steps(prog, s3, 4));
    assert(run_steps(prog, s3, 1) == run_steps(prog, s4, 0));
    assert(run_steps(prog, s3, 2) == run_steps(prog, s4, 1));
    assert(run_steps(prog, s3, 3) == run_steps(prog, s4, 2));
    assert(run_steps(prog, s3, 4) == run_steps(prog, s4, 3));
    assert(run_steps(prog, s4, 1) == run_steps(prog, s5, 0));
    assert(run_steps(prog, s4, 2) == run_steps(prog, s5, 1));
    assert(run_steps(prog, s4, 3) == run_steps(prog, s5, 2));
    assert(run_steps(prog, s5, 1) == run_steps(prog, s6, 0));
    assert(run_steps(prog, s5, 2) == run_steps(prog, s6, 1));
    assert(run_steps(prog, s6, 1) == run_steps(prog, s7, 0));
    assert(run_steps(prog, st, 0) == Some(s0));
    assert(run_steps(prog, st, 1) == Some(s1));
    assert(run_steps(prog, st, 2) == Some(s2));
    assert(run_steps(prog, st, 3) == Some(s3));
    assert(run_steps(prog, st, 4) == Some(s4));
    assert(run_steps(prog, st, 5) == Some(s5));
    assert(run_steps(prog, st, 6) == Some(s6));
    assert(run_steps(prog, st, 7) == Some(s7));
    assert forall|k: int| 0 <= k <= 6 implies #[trigger] run_steps(prog, st, k as nat) is Some
        && run_steps(prog, st, k as nat)->0.pc == k by {
        if k == 0 {
            assert(run_steps(prog, st, 0) == Some(s0));
        } else if k == 1 {
            assert(run_steps(prog, st, 1) == Some(s1));
        } else if k == 2 {
            assert(run_steps(prog, st, 2) == Some(s2));
        } else if k == 3 {
            assert(run_steps(prog, st, 3) == Some(s3));
        } else if k == 4 {
            assert(run_steps(prog, st, 4) == Some(s4));
        } else if k == 5 {
            assert(run_steps(prog, st, 5) == Some(s5));
        } else {
            assert(run_steps(prog, st, 6) == Some(s6));
        }
    }
}

/// Law: folding a constant addition or subtraction before code
/// generation does not change the value the emitted code leaves in
/// the accumulator — the six instructions of the unfolded operation
/// and the one load of the folded literal compute the same result,
/// and leave the stack as they found it.
#[verifier::rlimit(100)]
pub proof fn lemma_fold_preserves_result(
    op: IROperation,
    a: u64,
    b: u64,
    vars: Map<Seq<char>, int>,
    st: MachineState,
)
    requires
        op == IROperation::Add || op == IROperation::Sub,
        fold_val(op, a, b) is Some,
        st.pc == 0,
    ensures
        lower_expr(
            ExprV::Operation(
                op,
                seq![
                    ExprV::Value(IRValue::Number(a)),
                    ExprV::Value(IRValue::Number(b)),
                ],
            ),
            vars,
        ) is Ok,
        fold_expr(
            ExprV::Operation(
                op,
                seq![
                    ExprV::Value(IRValue::Number(a)),
                    ExprV::Value(IRValue::Number(b)),
                ],
            ),
        ) == ExprV::Value(IRValue::Number(fold_val(op, a, b)->0)),
        ({
            let full = run_steps(
                lower_expr(
                    ExprV::Operation(
                        op,
                        seq![
                            ExprV::Value(IRValue::Number(a)),
                            ExprV::Value(IRValue::Number(b)),
                        ],
                    ),
                    vars,
                )->Ok_0,
                st,
                6,
            );
            let folded = run_steps(
                lower_expr(
                    fold_expr(
                        ExprV::Operation(
                            op,
                            seq![
                                ExprV::Value(IRValue::Number(a)),
                                ExprV::Value(IRValue::Number(b)),
                            ],
                        ),
                    ),
                    vars,
                )->Ok_0,
                st,
                1,
            );
            full is Some && folded is Some && full->0.rax == fold_val(op, a, b)->0 && folded->0.rax
                == fold_val(op, a, b)->0 && full->0.stack == st.stack && folded->0.stack
                == st.stack
        }),
{
    let va = ExprV::Value(IRValue::Number(a));
    let vb = ExprV::Value(IRValue::Number(b));
    let es = seq![va, vb];
    assert(es.len() == 2 && es[0] == va && es[1] == vb);
    let e = ExprV::Operation(op, es);
    let v = fold_val(op, a, b)->0;
    let prog = lower_expr(e, vars)->Ok_0;
    let tail = if op == IROperation::Add {
        InstructionV::Add("rax"@, "rbx"@)
    } else {
        InstructionV::Sub("rax"@, "rbx"@)
    };
    assert(lower_expr(va, vars) == Ok::<Seq<InstructionV>, ErrV>(seq![
        InstructionV::Move("rax"@, dec_digits(a as nat)),
    ]));
    assert(lower_expr(vb, vars) == Ok::<Seq<InstructionV>, ErrV>(seq![
        InstructionV::Move("rax"@, dec_digits(b as nat)),
    ]));
    assert(prog == lower_expr(va, vars)->Ok_0 + seq![InstructionV::Push("rax"@)] + lower_expr(
        vb,
        vars,
    )->Ok_0 + seq![InstructionV::Move("rbx"@, "rax"@), InstructionV::Pop("rax"@), tail]);
    assert(prog =~= seq![
        InstructionV::Move("rax"@, dec_digits(a as nat)),
        InstructionV::Push("rax"@),
        InstructionV::Move("rax"@, dec_digits(b as nat)),
        InstructionV::Move("rbx"@, "rax"@),
        InstructionV::Pop("rax"@),
        tail,
    ]);
    lemma_imm_value_dec(a as nat);
    lemma_imm_value_dec(b as nat);
    lemma_dec_digits_not_rbx(a as nat);
    lemma_dec_digits_not_rbx(b as nat);
    reveal_strlit("rax");
    reveal_strlit("rbx");
    assert("rax"@ != "rbx"@) by {
        reveal_strlit("rax");
        reveal_strlit("rbx");
        assert("rax"@[1] == 'a');
        assert("rbx"@[1] == 'b');
    }

    let s0 = st;
    let s1 = MachineState { pc: 1, rax: a as nat, ..s0 };
    let s2 = MachineState { pc: 2, stack: s1.stack.push(a as nat), ..s1 };
    let s3 = MachineState { pc: 3, rax: b as nat, ..s2 };
    let s4 = MachineState { pc: 4, rbx: b as nat, ..s3 };
    let s5 = MachineState { pc: 5, rax: a as nat, stack: s1.stack, ..s4 };
    let s6 = MachineState { pc: 6, rax: v as nat, ..s5 };
    assert(step(prog, s0)->0 =~= s1);
    assert(step(prog, s0) == Some(s1));
    assert(step(prog, s1)->0 =~= s2);
    assert(step(prog, s1) == Some(s2));
    assert(step(prog, s2)->0 =~= s3);
    assert(step(prog, s2) == Some(s3));
    assert(step(prog, s3)->0 =~= s4);
    assert(step(prog, s3) == Some(s4));
    assert(s4.stack.len() > 0);
    assert(s4.stack.last() == a as nat);
    assert(s4.stack.drop_last() =~= s1.stack);
    assert(step(prog, s4)->0 =~= s5);
    assert(step(prog, s4) == Some(s5));
    assert(step(prog, s5) is Some && step(prog, s5)->0 =~= s6) by {
        if op == IROperation::Add {
            assert(a + b < word_base());
            lemma_small_mod((a + b) as nat, word_base());
        } else {
            assert(a >= b);
        }
    }
    assert(step(prog, s5) == Some(s6));
    assert(run_steps(prog, s0, 1) == run_steps(prog, s1, 0));
    assert(run_steps(prog, s0, 2) == run_steps(prog, s1, 1));
    assert(run_steps(prog, s0, 3) == run_steps(prog, s1, 2));
    assert(run_steps(prog, s0, 4) == run_steps(prog, s1, 3));
    assert(run_steps(prog, s0, 5) == run_steps(prog, s1, 4));
    assert(run_steps(prog, s0, 6) == run_steps(prog, s1, 5));
    assert(run_steps(prog, s1, 1) == run_steps(prog, s2, 0));
    assert(run_steps(prog, s1, 2) == run_steps(prog, s2, 1));
    assert(run_steps(prog, s1, 3) == run_steps(prog, s2, 2));
    assert(run_steps(prog, s1, 4) == run_steps(prog, s2, 3));
    assert(run_steps(prog, s1, 5) == run_steps(prog, s2, 4));
    assert(run_steps(prog, s2, 1) == run_steps(prog, s3, 0));
    assert(run_steps(prog, s2, 2) == run_steps(prog, s3, 1));
    assert(run_steps(prog, s2, 3) == run_steps(prog, s3, 2));
    assert(run_steps(prog, s2, 4) == run_steps(prog, s3, 3));
    assert(run_steps(prog, s3, 1) == run_steps(prog, s4, 0));
    assert(run_steps(prog, s3, 2) == run_steps(prog, s4, 1));
    assert(run_steps(prog, s3, 3) == run_steps(prog, s4, 2));
    assert(run_steps(prog, s4, 1) == run_steps(prog, s5, 0));
    assert(run_steps(prog, s4, 2) == run_steps(prog, s5, 1));
    assert(run_steps(prog, s5, 1) == run_steps(prog, s6, 0));
    assert(run_steps(prog, st, 6) == Some(s6));
    assert(s6.stack == st.stack);

    let fprog = lower_expr(fold_expr(e), vars)->Ok_0;
    assert(fold_expr(e) == ExprV::Value(IRValue::Number(v)));
    assert(fprog =~= seq![InstructionV::Move("rax"@, dec_digits(v as nat))]);
    lemma_imm_value_dec(v as nat);
    lemma_dec_digits_not_rbx(v as nat);
    let f1 = MachineState { pc: 1, rax: v as nat, ..st };
    assert(step(fprog, st)->0 =~= f1);
    assert(step(fprog, st) == Some(f1));
    assert(run_steps(fprog, st, 1) == run_steps(fprog, f1, 0));
    assert(run_steps(fprog, st, 1) == Some(f1));
}

} // verus!
