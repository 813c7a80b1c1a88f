use facompiler::errors::{CodegenError, CompileError};
use facompiler::frontend;
use facompiler::generate::{program_fits, X86_64};
use facompiler::ir::{IRExpression, IRNode, IRValue};
use facompiler::optimizer::optimize;
use facompiler::traits::Arch;

// Source text to assembly, with constant folding in between.
#[test]
fn whole_pipeline_on_hello_program() {
    let source = "func main() {\n  number x = 1 + 2;\n  print(x);\n}\n".to_string();

    let mut ir = frontend::parse(source).unwrap();
    assert_eq!(1, ir.len());
    assert_eq!("main", ir[0].name);

    optimize(&mut ir);
    // the optimizer folded 1 + 2
    assert_eq!(
        IRNode::Assignment("x".to_owned(), IRExpression::Value(IRValue::Number(3))),
        ir[0].statements[0][1]
    );

    assert!(program_fits(&ir));
    let text = X86_64::generate_asm_string(ir).unwrap();

    assert!(text.starts_with("section .text\nglobal _start\n"));
    // the builtin precedes user code; the entry point closes the stream
    assert!(text.contains("  print:\n"));
    assert!(text.contains("  main:\n"));
    assert!(text.contains("    mov rax, 3\n"));
    assert!(text.contains("    mov [rbp - 8], rax\n"));
    assert!(text.contains("    call print\n"));
    assert!(text.ends_with(
        "  _start:\n    call main\n    mov eax, 60\n    xor rdi, rdi\n    syscall\n"
    ));
}

#[test]
fn parse_rejects_stray_token() {
    let source = "number x ;".to_string();
    assert_eq!(None, frontend::parse(source));
}

#[test]
fn later_function_definition_replaces_earlier() {
    let source =
        "func f() {\n  print(1);\n}\nfunc f() {\n  print(2);\n}\n".to_string();
    let ir = frontend::parse(source).unwrap();
    assert_eq!(1, ir.len());
    assert_eq!(
        IRNode::SingleExpression(IRExpression::Call(
            "print".to_owned(),
            vec![IRExpression::Value(IRValue::Number(2))],
        )),
        ir[0].statements[0][0]
    );
}

#[test]
fn functions_are_emitted_in_source_order() {
    let source = "func a() {\n  print(1);\n}\nfunc b() {\n  print(2);\n}\nfunc main() {\n  a();\n}\n"
        .to_string();
    let ir = frontend::parse(source).unwrap();
    assert_eq!(3, ir.len());
    assert_eq!("a", ir[0].name);
    assert_eq!("b", ir[1].name);
    assert_eq!("main", ir[2].name);

    assert!(program_fits(&ir));
    let text = X86_64::generate_asm_string(ir).unwrap();
    let a_at = text.find("  a:\n").unwrap();
    let b_at = text.find("  b:\n").unwrap();
    let main_at = text.find("  main:\n").unwrap();
    assert!(a_at < b_at && b_at < main_at);
}

#[test]
fn generation_error_names_the_function() {
    let source = "func main() {\n  x = 1;\n}\n".to_string();
    let ir = frontend::parse(source).unwrap();
    assert!(program_fits(&ir));
    let result = X86_64::generate_asm_string(ir);
    assert_eq!(
        Err(CompileError {
            function: "main".to_owned(),
            error: CodegenError::UndeclaredVariable("x".to_owned()),
        }),
        result
    );
}

// Labels are threaded across functions: the second function's loop
// uses a fresh counter value.
#[test]
fn labels_are_unique_across_functions() {
    let source = "func a() {\n  while ( 1 > 2 ) { print(1); }\n}\nfunc main() {\n  while ( 1 > 2 ) { print(2); }\n}\n"
        .to_string();
    let ir = frontend::parse(source).unwrap();
    assert!(program_fits(&ir));
    let text = X86_64::generate_asm_string(ir).unwrap();
    assert!(text.contains("  L0_TOP:\n"));
    assert!(text.contains("  L0_END:\n"));
    assert!(text.contains("  L1_TOP:\n"));
    assert!(text.contains("  L1_END:\n"));
}
