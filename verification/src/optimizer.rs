//! The constant-folding pass: rewrites expression trees whose operands
//! are literals into the computed literal before code generation.  A
//! combination whose result the 64-bit value type cannot represent
//! (overflow, underflow, or division by zero) is left unfolded, and
//! the structure of statements is otherwise preserved.

use vstd::prelude::*;
use crate::ir::{
    copy_expr, copy_node, expr_seq_view, expr_view, lemma_expr_seq_view_props,
    lemma_node_seq_view_props, lemma_stmts_view_props, node_seq_view, node_view, stmts_view,
    ExprV, FuncV, IRExpression, IRFunction, IRNode, IROperation, IRValue, NodeV,
};

verus! {

/// The folded value of `op` applied to two literals, where the result
/// is representable: addition and multiplication must not overflow,
/// subtraction must not underflow, division must not divide by zero.
pub open spec fn fold_val(op: IROperation, n1: u64, n2: u64) -> Option<u64> {
    match op {
        IROperation::Add => if n1 + n2 <= u64::MAX {
            Some((n1 + n2) as u64)
        } else {
            None
        },
        IROperation::Sub => if n1 >= n2 {
            Some((n1 - n2) as u64)
        } else {
            None
        },
        IROperation::Multiply => if n1 * n2 <= u64::MAX {
            Some((n1 * n2) as u64)
        } else {
            None
        },
        IROperation::Divide => if n2 != 0 {
            Some(n1 / n2)
        } else {
            None
        },
    }
}

/// Combining two literal operands: the computed literal where it is
/// representable, the unfolded operation otherwise.
pub open spec fn combine_spec(op: IROperation, v1: IRValue, v2: IRValue) -> ExprV {
    match (v1, v2) {
        (IRValue::Number(n1), IRValue::Number(n2)) => match fold_val(op, n1, n2) {
            Some(n) => ExprV::Value(IRValue::Number(n)),
            None => ExprV::Operation(
                op,
                seq![ExprV::Value(IRValue::Number(n1)), ExprV::Value(IRValue::Number(n2))],
            ),
        },
    }
}

/// Constant folding of one expression: a binary operation over
/// operands that fold to literals becomes the combined literal; where
/// only one side folds, that side is replaced; anything else is left
/// unchanged.
pub open spec fn fold_expr(e: ExprV) -> ExprV
    decreases e,
{
    match e {
        ExprV::Operation(op, es) => if es.len() != 2 {
            e
        } else {
            let first = es[0];
            let second = es[1];
            match (first, second) {
                (ExprV::Value(v1), ExprV::Value(v2)) => combine_spec(op, v1, v2),
                (ExprV::Value(v1), ExprV::Operation(op2, es2)) => match fold_expr(second) {
                    ExprV::Value(v2) => combine_spec(op, v1, v2),
                    _ => e,
                },
                (ExprV::Operation(op2, es2), ExprV::Value(v2)) => match fold_expr(first) {
                    ExprV::Value(v1) => combine_spec(op, v1, v2),
                    _ => e,
                },
                (ExprV::Operation(opa, esa), ExprV::Operation(opb, esb)) => match fold_expr(
                    first,
                ) {
                    ExprV::Value(v1) => match fold_expr(second) {
                        ExprV::Value(v2) => combine_spec(op, v1, v2),
                        _ => e,
                    },
                    _ => e,
                },
                (_, ExprV::Operation(op2, es2)) => match fold_expr(second) {
                    ExprV::Value(v2) => ExprV::Operation(
                        op,
                        seq![first, ExprV::Value(v2)],
                    ),
                    _ => e,
                },
                (ExprV::Operation(op2, es2), _) => match fold_expr(first) {
                    ExprV::Value(v1) => ExprV::Operation(
                        op,
                        seq![ExprV::Value(v1), second],
                    ),
                    _ => e,
                },
                (_, _) => e,
            }
        },
        _ => e,
    }
}

/// Constant folding of every argument of a call, in order.
pub open spec fn fold_args(s: Seq<ExprV>) -> Seq<ExprV>
    decreases s,
{
    if s.len() == 0 {
        Seq::empty()
    } else {
        fold_args(s.drop_last()).push(fold_expr(s.last()))
    }
}

/// Constant folding of one statement: assignments fold their
/// right-hand side, a call evaluated for effect folds each argument,
/// any other expression statement folds its expression; declarations,
/// conditionals, loops and returns are left unchanged.
pub open spec fn fold_node(n: NodeV) -> NodeV {
    match n {
        NodeV::Assignment(name, e) => NodeV::Assignment(name, fold_expr(e)),
        NodeV::SingleExpression(e) => match e {
            ExprV::Call(name, args) => NodeV::SingleExpression(
                ExprV::Call(name, fold_args(args)),
            ),
            _ => NodeV::SingleExpression(fold_expr(e)),
        },
        _ => n,
    }
}

pub open spec fn fold_stmt(s: Seq<NodeV>) -> Seq<NodeV>
    decreases s,
{
    if s.len() == 0 {
        Seq::empty()
    } else {
        fold_stmt(s.drop_last()).push(fold_node(s.last()))
    }
}

pub open spec fn fold_stmts(s: Seq<Seq<NodeV>>) -> Seq<Seq<NodeV>>
    decreases s,
{
    if s.len() == 0 {
        Seq::empty()
    } else {
        fold_stmts(s.drop_last()).push(fold_stmt(s.last()))
    }
}

/// Constant folding of a whole function: every statement folded, the
/// signature untouched.
pub open spec fn fold_func(f: FuncV) -> FuncV {
    FuncV { statements: fold_stmts(f.statements), ..f }
}

fn combine_two(op: &IROperation, v1: &IRValue, v2: &IRValue) -> (r: IRExpression)
    ensures
        r@ == combine_spec(*op, *v1, *v2),
{
    broadcast use lemma_expr_seq_view_props;

    let (n1, n2) = match (v1, v2) {
        (IRValue::Number(n1), IRValue::Number(n2)) => (*n1, *n2),
    };
    let folded: Option<u64> = match op {
        IROperation::Add => n1.checked_add(n2),
        IROperation::Sub => n1.checked_sub(n2),
        IROperation::Multiply => n1.checked_mul(n2),
        IROperation::Divide => n1.checked_div(n2),
    };
    match folded {
        Some(n) => IRExpression::Value(IRValue::Number(n)),
        None => {
            let mut operands: Vec<IRExpression> = Vec::new();
            operands.push(IRExpression::Value(IRValue::Number(n1)));
            operands.push(IRExpression::Value(IRValue::Number(n2)));
            let r = IRExpression::Operation(*op, operands);
            proof {
                assert(expr_seq_view(operands@).len() == operands@.len());
                assert(expr_seq_view(operands@)[0] == expr_view(operands@[0]));
                assert(expr_seq_view(operands@)[1] == expr_view(operands@[1]));
                assert(expr_seq_view(operands@) =~= seq![
                    ExprV::Value(IRValue::Number(n1)),
                    ExprV::Value(IRValue::Number(n2)),
                ]);
                assert(r@ =~~= combine_spec(*op, *v1, *v2));
            }
            r
        },
    }
}

/// Folds one expression tree, leaving what cannot be folded unchanged.
#[verifier::rlimit(100)]
pub fn propagate_exp(exp: &IRExpression) -> (r: IRExpression)
    ensures
        r@ == fold_expr(exp@),
    decreases exp,
{
    broadcast use lemma_expr_seq_view_props;

    match exp {
        IRExpression::Operation(op, expressions) => {
            proof {
                assert(expr_seq_view(expressions@).len() == expressions@.len());
            }
            if expressions.len() != 2 {
                return copy_expr(exp);
            }
            proof {
                assert(expr_seq_view(expressions@)[0] == expr_view(expressions@[0]));
                assert(expr_seq_view(expressions@)[1] == expr_view(expressions@[1]));
            }
            let first = &expressions[0];
            let second = &expressions[1];
            match (first, second) {
                (IRExpression::Value(v1), IRExpression::Value(v2)) => combine_two(op, v1, v2),
                (IRExpression::Value(v1), IRExpression::Operation(o2, e2)) => {
                    let folded = propagate_exp(second);
                    match folded {
                        IRExpression::Value(v2) => combine_two(op, v1, &v2),
                        _ => copy_expr(exp),
                    }
                },
                (IRExpression::Operation(o1, e1), IRExpression::Value(v2)) => {
                    let folded = propagate_exp(first);
                    match folded {
                        IRExpression::Value(v1) => combine_two(op, &v1, v2),
                        _ => copy_expr(exp),
                    }
                },
                (IRExpression::Operation(o1, e1), IRExpression::Operation(o2, e2)) => {
                    let folded1 = propagate_exp(first);
                    match folded1 {
                        IRExpression::Value(v1) => {
                            let folded2 = propagate_exp(second);
                            match folded2 {
                                IRExpression::Value(v2) => combine_two(op, &v1, &v2),
                                _ => copy_expr(exp),
                            }
                        },
                        _ => copy_expr(exp),
                    }
                },
                (_, IRExpression::Operation(o2, e2)) => {
                    let folded = propagate_exp(second);
                    match folded {
                        IRExpression::Value(v2) => {
                            let mut operands: Vec<IRExpression> = Vec::new();
                            operands.push(copy_expr(first));
                            operands.push(IRExpression::Value(v2));
                            let r = IRExpression::Operation(*op, operands);
                            proof {
                                assert(expr_seq_view(operands@).len() == operands@.len());
                                assert(expr_seq_view(operands@)[0] == expr_view(operands@[0]));
                                assert(expr_seq_view(operands@)[1] == expr_view(operands@[1]));
                                assert(expr_seq_view(operands@) =~= seq![
                                    expr_view(expressions@[0]),
                                    ExprV::Value(v2),
                                ]);
                                assert(r@ =~~= fold_expr(exp@));
                            }
                            r
                        },
                        _ => copy_expr(exp),
                    }
                },
                (IRExpression::Operation(o1, e1), _) => {
                    let folded = propagate_exp(first);
                    match folded {
                        IRExpression::Value(v1) => {
                            let mut operands: Vec<IRExpression> = Vec::new();
                            operands.push(IRExpression::Value(v1));
                            operands.push(copy_expr(second));
                            let r = IRExpression::Operation(*op, operands);
                            proof {
                                assert(expr_seq_view(operands@).len() == operands@.len());
                                assert(expr_seq_view(operands@)[0] == expr_view(operands@[0]));
                                assert(expr_seq_view(operands@)[1] == expr_view(operands@[1]));
                                assert(expr_seq_view(operands@) =~= seq![
                                    ExprV::Value(v1),
                                    expr_view(expressions@[1]),
                                ]);
                                assert(r@ =~~= fold_expr(exp@));
                            }
                            r
                        },
                        _ => copy_expr(exp),
                    }
                },
                (_, _) => copy_expr(exp),
            }
        },
        _ => copy_expr(exp),
    }
}

#[verifier::loop_isolation(false)]
fn propagate_args(args: &Vec<IRExpression>) -> (r: Vec<IRExpression>)
    ensures
        expr_seq_view(r@) == fold_args(expr_seq_view(args@)),
{
    broadcast use lemma_expr_seq_view_props;

    let ghost av = expr_seq_view(args@);
    let mut r: Vec<IRExpression> = Vec::new();
    let mut i: usize = 0;
    proof {
        assert(av.take(0) =~= Seq::<ExprV>::empty());
        assert(expr_seq_view(r@) =~= fold_args(av.take(0)));
    }
    while i < args.len()
        invariant
            i <= args@.len(),
            expr_seq_view(r@) == fold_args(av.take(i as int)),
        decreases args@.len() - i,
    {
        let ghost prev = r@;
        r.push(propagate_exp(&args[i]));
        proof {
            assert(r@.drop_last() =~= prev);
            assert(av.take(i + 1).drop_last() =~= av.take(i as int));
            assert(av.take(i + 1).last() == av[i as int]);
            assert(expr_seq_view(r@) =~= fold_args(av.take(i + 1)));
        }
        i = i + 1;
    }
    proof {
        assert(av.take(args@.len() as int) =~= av);
    }
    r
}

fn propagate_node(part: &IRNode) -> (r: IRNode)
    ensures
        r@ == fold_node(part@),
{
    match part {
        IRNode::Assignment(name, exp) => IRNode::Assignment(name.clone(), propagate_exp(exp)),
        IRNode::SingleExpression(exp) => match exp {
            IRExpression::Call(name, args) => IRNode::SingleExpression(
                IRExpression::Call(name.clone(), propagate_args(args)),
            ),
            _ => IRNode::SingleExpression(propagate_exp(exp)),
        },
        _ => copy_node(part),
    }
}

/// Folds every foldable expression of one function in place.
#[verifier::loop_isolation(false)]
pub fn propagate(ir: &mut IRFunction)
    ensures
        final(ir)@ == fold_func(old(ir)@),
{
    broadcast use lemma_node_seq_view_props, lemma_stmts_view_props;

    let ghost sv = stmts_view(old(ir).statements@);
    let mut new_stmts: Vec<Vec<IRNode>> = Vec::new();
    let mut i: usize = 0;
    proof {
        assert(sv.take(0) =~= Seq::<Seq<NodeV>>::empty());
        assert(stmts_view(new_stmts@) =~= fold_stmts(sv.take(0)));
    }
    while i < ir.statements.len()
        invariant
            i <= ir.statements@.len(),
            ir == old(ir),
            stmts_view(new_stmts@) == fold_stmts(sv.take(i as int)),
        decreases ir.statements@.len() - i,
    {
        let statement = &ir.statements[i];
        let ghost nv = node_seq_view(statement@);
        let mut new_list: Vec<IRNode> = Vec::new();
        let mut j: usize = 0;
        proof {
            assert(nv.take(0) =~= Seq::<NodeV>::empty());
            assert(node_seq_view(new_list@) =~= fold_stmt(nv.take(0)));
        }
        while j < statement.len()
            invariant
                j <= statement@.len(),
                nv == node_seq_view(statement@),
                node_seq_view(new_list@) == fold_stmt(nv.take(j as int)),
            decreases statement@.len() - j,
        {
            let ghost prev = new_list@;
            new_list.push(propagate_node(&statement[j]));
            proof {
                assert(new_list@.drop_last() =~= prev);
                assert(nv.take(j + 1).drop_last() =~= nv.take(j as int));
                assert(nv.take(j + 1).last() == nv[j as int]);
                assert(node_seq_view(new_list@) =~= fold_stmt(nv.take(j + 1)));
            }
            j = j + 1;
        }
        proof {
            assert(nv.take(statement@.len() as int) =~= nv);
        }
        let ghost prev_stmts = new_stmts@;
        new_stmts.push(new_list);
        proof {
            assert(new_stmts@.drop_last() =~= prev_stmts);
            assert(sv.take(i + 1).drop_last() =~= sv.take(i as int));
            assert(sv.take(i + 1).last() == sv[i as int]);
            assert(sv[i as int] == node_seq_view(ir.statements@[i as int]@));
            assert(stmts_view(new_stmts@) =~= fold_stmts(sv.take(i + 1)));
        }
        i = i + 1;
    }
    proof {
        assert(sv.take(ir.statements@.len() as int) =~= sv);
    }
    ir.statements = new_stmts;
}

/// Folds every function of the program in place.
#[verifier::loop_isolation(false)]
pub fn optimize(ir: &mut Vec<IRFunction>)
    ensures
        final(ir)@.len() == old(ir)@.len(),
        forall|i: int|
            0 <= i < old(ir)@.len() ==> #[trigger] final(ir)@[i]@ == fold_func(old(ir)@[i]@),
{
    let ghost orig = old(ir)@;
    let mut done: Vec<IRFunction> = Vec::new();
    while ir.len() > 0
        invariant
            done@.len() + ir@.len() == orig.len(),
            forall|k: int| 0 <= k < ir@.len() ==> #[trigger] ir@[k] == orig[done@.len() + k],
            forall|k: int|
                0 <= k < done@.len() ==> #[trigger] done@[k]@ == fold_func(orig[k]@),
        decreases ir@.len(),
    {
        let mut func = ir.remove(0);
        propagate(&mut func);
        done.push(func);
    }
    *ir = done;
}

} // verus!
