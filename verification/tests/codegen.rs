use facompiler::decimal::dec_string;
use facompiler::errors::CodegenError;
use facompiler::expression::generate;
use facompiler::function::{generate_function, generate_statement};
use facompiler::instructions::{Instruction, Register};
use facompiler::ir::{
    IRComparison, IRExpression, IRFunction, IRNode, IROperation, IRParameter, IRType, IRValue,
};
use facompiler::optimizer::propagate_exp;
use facompiler::variables::VariableOffsets;

fn rax() -> String {
    Register::RAX.to_string()
}

fn rbx() -> String {
    Register::RBX.to_string()
}

fn rsp() -> String {
    Register::RSP.to_string()
}

fn rbp() -> String {
    Register::RBP.to_string()
}

// Lowering `1 + 2` in isolation: load 1, park it on the stack, load 2,
// move it to the scratch register, pop 1 back, add.
#[test]
fn add_of_two_literals_lowers_to_stack_discipline() {
    let exp = IRExpression::Operation(
        IROperation::Add,
        vec![
            IRExpression::Value(IRValue::Number(1)),
            IRExpression::Value(IRValue::Number(2)),
        ],
    );
    let vars = VariableOffsets::new();

    let expected = vec![
        Instruction::Move(rax(), "1".to_owned()),
        Instruction::Push(rax()),
        Instruction::Move(rax(), "2".to_owned()),
        Instruction::Move(rbx(), rax()),
        Instruction::Pop(rax()),
        Instruction::Add(rax(), rbx()),
    ];

    assert_eq!(expected, generate(&exp, &vars).unwrap());
}

// A conditional emits exactly one label definition, and the guarding
// inverse branch targets exactly that label.
#[test]
fn conditional_emits_one_label_matching_its_guard() {
    let statement = vec![IRNode::Conditional(
        IRComparison::Equals(
            IRExpression::Value(IRValue::Number(1)),
            IRExpression::Value(IRValue::Number(2)),
        ),
        vec![vec![IRNode::SingleExpression(IRExpression::Value(
            IRValue::Number(5),
        ))]],
    )];
    let vars = VariableOffsets::new();
    let mut counter: u64 = 0;

    let instrs = generate_statement(&statement, &vars, &mut counter).unwrap();

    let labels: Vec<&Instruction> = instrs
        .iter()
        .filter(|i| matches!(i, Instruction::Label(_)))
        .collect();
    assert_eq!(1, labels.len());
    assert_eq!(&Instruction::Label("L0_END".to_owned()), labels[0]);
    assert!(instrs.contains(&Instruction::Jne("L0_END".to_owned())));
    assert_eq!(&Instruction::Label("L0_END".to_owned()), instrs.last().unwrap());
    assert_eq!(1, counter);
}

// A loop is guarded up front: with an initially-false comparison the
// inverse branch jumps straight past the body to the end label.
#[test]
fn loop_guard_jumps_to_trailing_end_label() {
    let statement = vec![IRNode::Loop(
        IRComparison::Equals(
            IRExpression::Value(IRValue::Number(1)),
            IRExpression::Value(IRValue::Number(2)),
        ),
        vec![vec![IRNode::SingleExpression(IRExpression::Value(
            IRValue::Number(5),
        ))]],
    )];
    let vars = VariableOffsets::new();
    let mut counter: u64 = 0;

    let instrs = generate_statement(&statement, &vars, &mut counter).unwrap();

    // guard: comment, two loads with push/pop, compare, inverse branch
    assert_eq!(Instruction::Jne("L0_END".to_owned()), instrs[6]);
    assert_eq!(Instruction::Label("L0_TOP".to_owned()), instrs[7]);
    assert_eq!(
        &Instruction::Label("L0_END".to_owned()),
        instrs.last().unwrap()
    );
    assert!(instrs.contains(&Instruction::Je("L0_TOP".to_owned())));
}

// Folding 1 + 2 and lowering yields a single load of the same value
// the unfolded sequence computes.
#[test]
fn folded_literal_lowers_to_single_load() {
    let exp = IRExpression::Operation(
        IROperation::Add,
        vec![
            IRExpression::Value(IRValue::Number(1)),
            IRExpression::Value(IRValue::Number(2)),
        ],
    );
    let vars = VariableOffsets::new();

    let folded = propagate_exp(&exp);
    assert_eq!(IRExpression::Value(IRValue::Number(3)), folded);
    assert_eq!(
        vec![Instruction::Move(rax(), "3".to_owned())],
        generate(&folded, &vars).unwrap()
    );
}

// End-to-end: `number x; x = 1 + 2; print(x);` in a parameterless main.
#[test]
fn main_with_local_assignment_and_print() {
    let function = IRFunction {
        name: "main".to_owned(),
        return_type: None,
        parameters: vec![],
        statements: vec![
            vec![
                IRNode::DeclareVariable("x".to_owned(), IRType::Number),
                IRNode::Assignment(
                    "x".to_owned(),
                    IRExpression::Operation(
                        IROperation::Add,
                        vec![
                            IRExpression::Value(IRValue::Number(1)),
                            IRExpression::Value(IRValue::Number(2)),
                        ],
                    ),
                ),
            ],
            vec![IRNode::SingleExpression(IRExpression::Call(
                "print".to_owned(),
                vec![IRExpression::Variable("x".to_owned())],
            ))],
        ],
    };
    let mut counter: u64 = 0;

    let instrs = generate_function(&function, &mut counter).unwrap();

    let expected = vec![
        // prologue, reserving 8 bytes for the one local
        Instruction::Label("main".to_owned()),
        Instruction::Push(rbp()),
        Instruction::Move(rbp(), rsp()),
        Instruction::Sub(rsp(), "8".to_owned()),
        // x = 1 + 2
        Instruction::Comment("Assignment".to_owned()),
        Instruction::Move(rax(), "1".to_owned()),
        Instruction::Push(rax()),
        Instruction::Move(rax(), "2".to_owned()),
        Instruction::Move(rbx(), rax()),
        Instruction::Pop(rax()),
        Instruction::Add(rax(), rbx()),
        Instruction::Move("[rbp - 8]".to_owned(), rax()),
        // print(x)
        Instruction::Comment("Single-Expression".to_owned()),
        Instruction::Move(rax(), "[rbp - 8]".to_owned()),
        Instruction::Push(rax()),
        Instruction::Call("print".to_owned()),
        Instruction::Add(rsp(), "8".to_owned()),
        // epilogue
        Instruction::Move(rsp(), rbp()),
        Instruction::Pop(rbp()),
        Instruction::Return,
    ];
    assert_eq!(expected, instrs);
}

// End-to-end: a one-parameter function returning its parameter reads
// it from above the frame base and runs the shared epilogue twice
// (once at the return site, once at the fall-through exit).
#[test]
fn one_parameter_identity_function() {
    let function = IRFunction {
        name: "f".to_owned(),
        return_type: Some(IRType::Number),
        parameters: vec![IRParameter {
            name: "n".to_owned(),
            param_type: IRType::Number,
        }],
        statements: vec![vec![IRNode::Return(Some(IRExpression::Variable(
            "n".to_owned(),
        )))]],
    };
    let mut counter: u64 = 0;

    let instrs = generate_function(&function, &mut counter).unwrap();

    let expected = vec![
        Instruction::Label("f".to_owned()),
        Instruction::Push(rbp()),
        Instruction::Move(rbp(), rsp()),
        Instruction::Sub(rsp(), "0".to_owned()),
        Instruction::Comment("Return".to_owned()),
        Instruction::Move(rax(), "[rbp + 16]".to_owned()),
        Instruction::Move(rsp(), rbp()),
        Instruction::Pop(rbp()),
        Instruction::Return,
        Instruction::Move(rsp(), rbp()),
        Instruction::Pop(rbp()),
        Instruction::Return,
    ];
    assert_eq!(expected, instrs);
}

// A two-argument call pushes its arguments in reverse source order, so
// the callee's first parameter slot holds the first argument.
#[test]
fn call_pushes_arguments_in_reverse_order() {
    let exp = IRExpression::Call(
        "f".to_owned(),
        vec![
            IRExpression::Value(IRValue::Number(1)),
            IRExpression::Value(IRValue::Number(2)),
        ],
    );
    let vars = VariableOffsets::new();

    let expected = vec![
        Instruction::Move(rax(), "2".to_owned()),
        Instruction::Push(rax()),
        Instruction::Move(rax(), "1".to_owned()),
        Instruction::Push(rax()),
        Instruction::Call("f".to_owned()),
        Instruction::Add(rsp(), "8".to_owned()),
        Instruction::Add(rsp(), "8".to_owned()),
    ];
    assert_eq!(expected, generate(&exp, &vars).unwrap());
}

#[test]
fn undeclared_variable_is_reported() {
    let vars = VariableOffsets::new();
    assert_eq!(
        Err(CodegenError::UndeclaredVariable("x".to_owned())),
        generate(&IRExpression::Variable("x".to_owned()), &vars)
    );
}

#[test]
fn unsupported_operation_is_reported() {
    let vars = VariableOffsets::new();
    let exp = IRExpression::Operation(
        IROperation::Multiply,
        vec![
            IRExpression::Value(IRValue::Number(2)),
            IRExpression::Value(IRValue::Number(3)),
        ],
    );
    assert_eq!(
        Err(CodegenError::UnsupportedOperation(IROperation::Multiply)),
        generate(&exp, &vars)
    );
}

#[test]
fn builtin_call_with_wrong_arity_is_malformed() {
    let vars = VariableOffsets::new();
    let exp = IRExpression::Call("print".to_owned(), vec![]);
    assert_eq!(Err(CodegenError::MalformedCall), generate(&exp, &vars));
}

#[test]
fn noop_lowers_to_nothing() {
    let vars = VariableOffsets::new();
    let empty: Vec<Instruction> = vec![];
    assert_eq!(empty, generate(&IRExpression::Noop, &vars).unwrap());
}

#[test]
fn formatter_renders_one_line_per_instruction() {
    let instrs = vec![
        Instruction::Section(".text".to_owned()),
        Instruction::Label("main".to_owned()),
        Instruction::Move(rax(), "1".to_owned()),
        Instruction::Return,
        Instruction::Syscall,
        Instruction::Raw("global _start".to_owned()),
        Instruction::Comment("Loop".to_owned()),
        Instruction::Lea("rsi".to_owned(), "[rbp - 1]".to_owned()),
    ];
    let text = facompiler::instructions::format(&instrs);
    assert_eq!(
        "section .text\n  main:\n    mov rax, 1\n    ret\n    syscall\nglobal _start\n    ; Loop\n    lea rsi,[rbp - 1]\n",
        text
    );
}

#[test]
fn decimal_rendering_matches() {
    assert_eq!("0", dec_string(0));
    assert_eq!("10", dec_string(10));
    assert_eq!("1234567890", dec_string(1234567890));
    assert_eq!("18446744073709551615", dec_string(u64::MAX));
}

#[test]
fn register_names() {
    assert_eq!("rax", Register::RAX.to_string());
    assert_eq!("rbx", Register::RBX.to_string());
    assert_eq!("rsp", Register::RSP.to_string());
    assert_eq!("rbp", Register::RBP.to_string());
    assert_eq!("rsi", Register::RSI.to_string());
    assert_eq!("rdi", Register::RDI.to_string());
    assert_eq!("rcx", Register::RCX.to_string());
    assert_eq!("rdx", Register::RDX.to_string());
}
