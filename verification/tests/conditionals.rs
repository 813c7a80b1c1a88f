use facompiler::conditionals::{generate_inverse_jump, generate_jump};
use facompiler::instructions::{Instruction, Register};
use facompiler::ir::{IRComparison, IRExpression, IRValue};
use facompiler::variables::VariableOffsets;

#[test]
fn simple_inverse_equal() {
    let comparison = IRComparison::Equals(
        IRExpression::Value(IRValue::Number(1)),
        IRExpression::Value(IRValue::Number(2)),
    );
    let target = "test_target".to_string();
    let variables = VariableOffsets::new();

    let expected = vec![
        Instruction::Move(Register::RAX.to_string(), "1".to_string()),
        Instruction::Push(Register::RAX.to_string()),
        Instruction::Move(Register::RAX.to_string(), "2".to_string()),
        Instruction::Pop(Register::RBX.to_string()),
        Instruction::Cmp(Register::RBX.to_string(), Register::RAX.to_string()),
        Instruction::Jne(target.clone()),
    ];

    assert_eq!(
        expected,
        generate_inverse_jump(&comparison, target, &variables).unwrap()
    );
}

#[test]
fn simple_inverse_greater_than() {
    let comparison = IRComparison::GreaterThan(
        IRExpression::Value(IRValue::Number(1)),
        IRExpression::Value(IRValue::Number(2)),
    );
    let target = "test_target".to_string();
    let variables = VariableOffsets::new();

    let expected = vec![
        Instruction::Move(Register::RAX.to_string(), "1".to_string()),
        Instruction::Push(Register::RAX.to_string()),
        Instruction::Move(Register::RAX.to_string(), "2".to_string()),
        Instruction::Pop(Register::RBX.to_string()),
        Instruction::Cmp(Register::RBX.to_string(), Register::RAX.to_string()),
        Instruction::Jle(target.clone()),
    ];

    assert_eq!(
        expected,
        generate_inverse_jump(&comparison, target, &variables).unwrap()
    );
}

#[test]
fn simple_equal() {
    let comparison = IRComparison::Equals(
        IRExpression::Value(IRValue::Number(1)),
        IRExpression::Value(IRValue::Number(2)),
    );
    let target = "test_target".to_string();
    let variables = VariableOffsets::new();

    let expected = vec![
        Instruction::Move(Register::RAX.to_string(), "1".to_string()),
        Instruction::Push(Register::RAX.to_string()),
        Instruction::Move(Register::RAX.to_string(), "2".to_string()),
        Instruction::Pop(Register::RBX.to_string()),
        Instruction::Cmp(Register::RBX.to_string(), Register::RAX.to_string()),
        Instruction::Je(target.clone()),
    ];

    assert_eq!(
        expected,
        generate_jump(&comparison, target, &variables).unwrap()
    );
}

#[test]
fn simple_greater_than() {
    let comparison = IRComparison::GreaterThan(
        IRExpression::Value(IRValue::Number(1)),
        IRExpression::Value(IRValue::Number(2)),
    );
    let target = "test_target".to_string();
    let variables = VariableOffsets::new();

    let expected = vec![
        Instruction::Move(Register::RAX.to_string(), "1".to_string()),
        Instruction::Push(Register::RAX.to_string()),
        Instruction::Move(Register::RAX.to_string(), "2".to_string()),
        Instruction::Pop(Register::RBX.to_string()),
        Instruction::Cmp(Register::RBX.to_string(), Register::RAX.to_string()),
        Instruction::Jg(target.clone()),
    ];

    assert_eq!(
        expected,
        generate_jump(&comparison, target, &variables).unwrap()
    );
}
