use facompiler::ir::{IRExpression, IRFunction, IRNode, IROperation, IRValue};
use facompiler::optimizer::{propagate, propagate_exp};

#[test]
fn one_propagate() {
    let exp = IRExpression::Operation(
        IROperation::Add,
        vec![
            IRExpression::Value(IRValue::Number(1)),
            IRExpression::Value(IRValue::Number(2)),
        ],
    );
    let expected = IRExpression::Value(IRValue::Number(3));

    assert_eq!(expected, propagate_exp(&exp));
}

#[test]
fn nested_propagate_as_second() {
    let exp = IRExpression::Operation(
        IROperation::Add,
        vec![
            IRExpression::Value(IRValue::Number(1)),
            IRExpression::Operation(
                IROperation::Add,
                vec![
                    IRExpression::Value(IRValue::Number(2)),
                    IRExpression::Value(IRValue::Number(3)),
                ],
            ),
        ],
    );
    let expected = IRExpression::Value(IRValue::Number(6));

    assert_eq!(expected, propagate_exp(&exp));
}

#[test]
fn nested_propagate_as_first() {
    let exp = IRExpression::Operation(
        IROperation::Add,
        vec![
            IRExpression::Operation(
                IROperation::Add,
                vec![
                    IRExpression::Value(IRValue::Number(2)),
                    IRExpression::Value(IRValue::Number(3)),
                ],
            ),
            IRExpression::Value(IRValue::Number(1)),
        ],
    );
    let expected = IRExpression::Value(IRValue::Number(6));

    assert_eq!(expected, propagate_exp(&exp));
}

#[test]
fn two_expressions() {
    let exp = IRExpression::Operation(
        IROperation::Add,
        vec![
            IRExpression::Operation(
                IROperation::Add,
                vec![
                    IRExpression::Value(IRValue::Number(2)),
                    IRExpression::Value(IRValue::Number(5)),
                ],
            ),
            IRExpression::Operation(
                IROperation::Add,
                vec![
                    IRExpression::Value(IRValue::Number(1)),
                    IRExpression::Value(IRValue::Number(2)),
                ],
            ),
        ],
    );
    let expected = IRExpression::Value(IRValue::Number(10));

    assert_eq!(expected, propagate_exp(&exp));
}

#[test]
fn multiply_folds_in_range() {
    let exp = IRExpression::Operation(
        IROperation::Multiply,
        vec![
            IRExpression::Value(IRValue::Number(6)),
            IRExpression::Value(IRValue::Number(7)),
        ],
    );

    assert_eq!(IRExpression::Value(IRValue::Number(42)), propagate_exp(&exp));
}

#[test]
fn divide_folds_when_divisor_is_nonzero() {
    let exp = IRExpression::Operation(
        IROperation::Divide,
        vec![
            IRExpression::Value(IRValue::Number(10)),
            IRExpression::Value(IRValue::Number(2)),
        ],
    );

    assert_eq!(IRExpression::Value(IRValue::Number(5)), propagate_exp(&exp));
}

#[test]
fn overflowing_addition_is_left_unfolded() {
    let exp = IRExpression::Operation(
        IROperation::Add,
        vec![
            IRExpression::Value(IRValue::Number(u64::MAX)),
            IRExpression::Value(IRValue::Number(1)),
        ],
    );

    assert_eq!(exp, propagate_exp(&exp));
}

#[test]
fn underflowing_subtraction_is_left_unfolded() {
    let exp = IRExpression::Operation(
        IROperation::Sub,
        vec![
            IRExpression::Value(IRValue::Number(1)),
            IRExpression::Value(IRValue::Number(2)),
        ],
    );

    assert_eq!(exp, propagate_exp(&exp));
}

#[test]
fn division_by_zero_is_left_unfolded() {
    let exp = IRExpression::Operation(
        IROperation::Divide,
        vec![
            IRExpression::Value(IRValue::Number(1)),
            IRExpression::Value(IRValue::Number(0)),
        ],
    );

    assert_eq!(exp, propagate_exp(&exp));
}

#[test]
fn partial_fold_keeps_variable_operand() {
    let exp = IRExpression::Operation(
        IROperation::Add,
        vec![
            IRExpression::Variable("x".to_owned()),
            IRExpression::Operation(
                IROperation::Add,
                vec![
                    IRExpression::Value(IRValue::Number(2)),
                    IRExpression::Value(IRValue::Number(3)),
                ],
            ),
        ],
    );
    let expected = IRExpression::Operation(
        IROperation::Add,
        vec![
            IRExpression::Variable("x".to_owned()),
            IRExpression::Value(IRValue::Number(5)),
        ],
    );

    assert_eq!(expected, propagate_exp(&exp));
}

#[test]
fn propagate_rewrites_assignments_in_place() {
    let mut func = IRFunction {
        name: "main".to_owned(),
        return_type: None,
        parameters: vec![],
        statements: vec![vec![IRNode::Assignment(
            "x".to_owned(),
            IRExpression::Operation(
                IROperation::Add,
                vec![
                    IRExpression::Value(IRValue::Number(1)),
                    IRExpression::Value(IRValue::Number(2)),
                ],
            ),
        )]],
    };
    propagate(&mut func);

    assert_eq!(
        vec![vec![IRNode::Assignment(
            "x".to_owned(),
            IRExpression::Value(IRValue::Number(3)),
        )]],
        func.statements
    );
}
