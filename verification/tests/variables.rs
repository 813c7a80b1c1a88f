use facompiler::errors::CodegenError;
use facompiler::ir::{IRComparison, IRExpression, IRFunction, IRNode, IRParameter, IRType, IRValue};
use facompiler::variables::{generate_offsets, VariableOffsets};

#[test]
fn no_variables() {
    let function = IRFunction {
        name: "test".to_owned(),
        return_type: None,
        parameters: vec![],
        statements: vec![vec![IRNode::SingleExpression(IRExpression::Call(
            "test_func".to_owned(),
            vec![],
        ))]],
    };

    let expected_vars = VariableOffsets::new();
    let expected_offset = 0;

    let (result_vars, result_offset) = generate_offsets(&function).unwrap();

    assert_eq!(expected_vars, result_vars);
    assert_eq!(expected_offset, result_offset);
}

#[test]
fn one_variable() {
    let function = IRFunction {
        name: "test".to_owned(),
        return_type: None,
        parameters: vec![],
        statements: vec![vec![IRNode::DeclareVariable(
            "test_var".to_owned(),
            IRType::Number,
        )]],
    };

    let mut expected_vars = VariableOffsets::new();
    expected_vars.insert("test_var".to_owned(), 8);
    let expected_offset = 8;

    let (result_vars, result_offset) = generate_offsets(&function).unwrap();

    assert_eq!(expected_vars, result_vars);
    assert_eq!(expected_offset, result_offset);
}

#[test]
fn variables_one_param() {
    let function = IRFunction {
        name: "test".to_owned(),
        return_type: None,
        parameters: vec![IRParameter {
            name: "test_param".to_owned(),
            param_type: IRType::Number,
        }],
        statements: vec![],
    };

    let mut expected_vars = VariableOffsets::new();
    expected_vars.insert("test_param".to_owned(), -16);
    let expected_offset = 0;

    let (result_vars, result_offset) = generate_offsets(&function).unwrap();

    assert_eq!(expected_vars, result_vars);
    assert_eq!(expected_offset, result_offset);
}

#[test]
fn variables_two_params() {
    let function = IRFunction {
        name: "test".to_owned(),
        return_type: None,
        parameters: vec![
            IRParameter {
                name: "test_param1".to_owned(),
                param_type: IRType::Number,
            },
            IRParameter {
                name: "test_param2".to_owned(),
                param_type: IRType::Number,
            },
        ],
        statements: vec![],
    };

    let mut expected_vars = VariableOffsets::new();
    expected_vars.insert("test_param1".to_owned(), -16);
    expected_vars.insert("test_param2".to_owned(), -24);
    let expected_offset = 0;

    let (result_vars, result_offset) = generate_offsets(&function).unwrap();

    assert_eq!(expected_vars, result_vars);
    assert_eq!(expected_offset, result_offset);
}

#[test]
fn two_locals_in_declaration_order() {
    let function = IRFunction {
        name: "test".to_owned(),
        return_type: None,
        parameters: vec![],
        statements: vec![
            vec![IRNode::DeclareVariable("first".to_owned(), IRType::Number)],
            vec![IRNode::DeclareVariable("second".to_owned(), IRType::Number)],
        ],
    };

    let mut expected_vars = VariableOffsets::new();
    expected_vars.insert("first".to_owned(), 8);
    expected_vars.insert("second".to_owned(), 16);

    let (result_vars, result_offset) = generate_offsets(&function).unwrap();

    assert_eq!(expected_vars, result_vars);
    assert_eq!(16, result_offset);
}

#[test]
fn nested_declaration_is_flattened() {
    let body = vec![vec![IRNode::DeclareVariable(
        "inner".to_owned(),
        IRType::Number,
    )]];
    let function = IRFunction {
        name: "test".to_owned(),
        return_type: None,
        parameters: vec![],
        statements: vec![
            vec![IRNode::DeclareVariable("outer".to_owned(), IRType::Number)],
            vec![IRNode::Conditional(
                IRComparison::Equals(
                    IRExpression::Value(IRValue::Number(1)),
                    IRExpression::Value(IRValue::Number(1)),
                ),
                body,
            )],
        ],
    };

    let mut expected_vars = VariableOffsets::new();
    expected_vars.insert("outer".to_owned(), 8);
    expected_vars.insert("inner".to_owned(), 16);

    let (result_vars, result_offset) = generate_offsets(&function).unwrap();

    assert_eq!(expected_vars, result_vars);
    assert_eq!(16, result_offset);
}

#[test]
fn duplicate_declaration_is_rejected() {
    let function = IRFunction {
        name: "test".to_owned(),
        return_type: None,
        parameters: vec![IRParameter {
            name: "x".to_owned(),
            param_type: IRType::Number,
        }],
        statements: vec![vec![IRNode::DeclareVariable("x".to_owned(), IRType::Number)]],
    };

    assert_eq!(
        Err(CodegenError::DuplicateDeclaration("x".to_owned())),
        generate_offsets(&function)
    );
}
