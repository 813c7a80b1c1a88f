//! The program assembler: concatenates the text-section header, the
//! builtins, every user function in input order, and the synthetic
//! process entry point that calls `main` and exits, then renders the
//! stream to text.
//!
//! Function order is the order of the input sequence; the frontend
//! produces functions in source order, so output is deterministic.

use vstd::prelude::*;
use crate::errors::{CompileErrV, CompileError};
use crate::builtin::{builtins_instrs, generate_builtins};
use crate::function::{
    generate_function, lemma_lower_stmts_counter, lower_function, lower_stmts, weight_stmts,
};
use crate::instructions::{
    format_lines, iviews, lemma_iviews_add, lemma_iviews_push, Instruction, InstructionV,
};
use crate::ir::{func_seq_view, lemma_func_seq_view_props, FuncV, IRFunction};
use crate::traits::Arch;
use crate::variables::{decl_total, layout_of};

verus! {

/// The label counters that lowering a sequence of functions consumes.
pub open spec fn weight_funcs(fs: Seq<FuncV>) -> nat
    decreases fs,
{
    if fs.len() == 0 {
        0
    } else {
        weight_funcs(fs.drop_last()) + weight_stmts(fs.last().statements)
    }
}

/// The size bounds under which code generation cannot overflow its
/// 64-bit offset and label arithmetic; any program that fits in memory
/// satisfies them.
pub open spec fn fits_program(fs: Seq<FuncV>) -> bool {
    &&& forall|i: int| 0 <= i < fs.len() ==> decl_total(#[trigger] fs[i]) <= 0x1000_0000
    &&& weight_funcs(fs) <= 0x1000_0000
}

/// Lowering of every function in order, threading the label counter
/// across function boundaries so labels stay unique program-wide.  An
/// error is bound to the name of the function it occurred in.
pub open spec fn lower_functions(fs: Seq<FuncV>, c: nat) -> Result<
    (Seq<InstructionV>, nat),
    CompileErrV,
>
    decreases fs,
{
    if fs.len() == 0 {
        Ok((Seq::empty(), c))
    } else {
        match lower_functions(fs.drop_last(), c) {
            Err(e) => Err(e),
            Ok(pre) => match lower_function(fs.last(), pre.1) {
                Err(e) => Err(CompileErrV { function: fs.last().name, error: e }),
                Ok(fi) => Ok((pre.0 + fi.0, fi.1)),
            },
        }
    }
}

/// The fixed prefix of every program: the text-section directive and
/// the global declaration of the process entry point.
pub open spec fn program_header() -> Seq<InstructionV> {
    seq![InstructionV::Section(".text"@), InstructionV::Raw("global _start"@)]
}

/// The synthetic process entry point: call `main`, load the
/// process-exit syscall number, zero the exit status, exit.
pub open spec fn program_footer() -> Seq<InstructionV> {
    seq![
        InstructionV::Label("_start"@),
        InstructionV::Call("main"@),
        InstructionV::Move("eax"@, "60"@),
        InstructionV::Xor("rdi"@, "rdi"@),
        InstructionV::Syscall,
    ]
}

/// The complete instruction stream of a program: header, builtins,
/// user functions, entry point.
pub open spec fn program_instrs(fs: Seq<FuncV>) -> Result<Seq<InstructionV>, CompileErrV> {
    match lower_functions(fs, 0) {
        Err(e) => Err(e),
        Ok(fi) => Ok(program_header() + builtins_instrs() + fi.0 + program_footer()),
    }
}

/// The rendered assembly text of a program.
pub open spec fn program_text(fs: Seq<FuncV>) -> Result<Seq<char>, CompileErrV> {
    match program_instrs(fs) {
        Err(e) => Err(e),
        Ok(instrs) => Ok(format_lines(instrs)),
    }
}

proof fn lemma_lower_functions_counter(fs: Seq<FuncV>, c: nat)
    requires
        lower_functions(fs, c) is Ok,
    ensures
        c <= lower_functions(fs, c)->Ok_0.1 <= c + weight_funcs(fs),
    decreases fs,
{
    if fs.len() > 0 {
        lemma_lower_functions_counter(fs.drop_last(), c);
        let pre = lower_functions(fs.drop_last(), c)->Ok_0;
        if lower_function(fs.last(), pre.1) is Ok {
            if lower_stmts(fs.last().statements, layout_of(fs.last())->Ok_0.0, pre.1) is Ok {
                lemma_lower_stmts_counter(
                    fs.last().statements,
                    layout_of(fs.last())->Ok_0.0,
                    pre.1,
                );
            }
        }
    }
}

proof fn lemma_lower_functions_err_prefix(fs: Seq<FuncV>, c: nat, j: int)
    requires
        0 <= j <= fs.len(),
        lower_functions(fs.take(j), c) is Err,
    ensures
        lower_functions(fs, c) == lower_functions(fs.take(j), c),
    decreases fs.len() - j,
{
    if j == fs.len() {
        assert(fs.take(j) =~= fs);
    } else {
        assert(fs.take(j + 1).drop_last() =~= fs.take(j));
        lemma_lower_functions_err_prefix(fs, c, j + 1);
    }
}

proof fn lemma_weight_funcs_take(fs: Seq<FuncV>, i: int)
    requires
        0 <= i < fs.len(),
    ensures
        weight_funcs(fs.take(i)) + weight_stmts(fs[i].statements) <= weight_funcs(fs),
    decreases fs.len() - i,
{
    assert(fs.take(i + 1).drop_last() =~= fs.take(i));
    assert(fs.take(i + 1).last() == fs[i]);
    if i + 1 == fs.len() {
        assert(fs.take(i + 1) =~= fs);
    } else {
        lemma_weight_funcs_monotone(fs, i + 1);
    }
}

proof fn lemma_weight_funcs_monotone(fs: Seq<FuncV>, i: int)
    requires
        0 <= i <= fs.len(),
    ensures
        weight_funcs(fs.take(i)) <= weight_funcs(fs),
    decreases fs.len() - i,
{
    if i == fs.len() {
        assert(fs.take(i) =~= fs);
    } else {
        assert(fs.take(i + 1).drop_last() =~= fs.take(i));
        lemma_weight_funcs_monotone(fs, i + 1);
    }
}

/// Generates the complete instruction stream of a program.
#[verifier::loop_isolation(false)]
#[verifier::rlimit(60)]
pub fn generate_program(ir: &Vec<IRFunction>) -> (r: Result<Vec<Instruction>, CompileError>)
    requires
        fits_program(func_seq_view(ir@)),
    ensures
        match r {
            Ok(v) => program_instrs(func_seq_view(ir@)) is Ok && iviews(v@) == program_instrs(
                func_seq_view(ir@),
            )->Ok_0,
            Err(e) => program_instrs(func_seq_view(ir@)) is Err && e@ == program_instrs(
                func_seq_view(ir@),
            )->Err_0,
        },
{
    broadcast use lemma_iviews_push, lemma_iviews_add, lemma_func_seq_view_props;

    let ghost fv = func_seq_view(ir@);
    let mut final_asm: Vec<Instruction> = Vec::new();
    final_asm.push(Instruction::Section(".text".to_owned()));
    final_asm.push(Instruction::Raw("global _start".to_owned()));

    let mut builtin_code = generate_builtins();
    final_asm.append(&mut builtin_code);
    proof {
        assert(iviews(final_asm@) =~= program_header() + builtins_instrs());
    }
    let ghost pre = iviews(final_asm@);

    let mut counter: u64 = 0;
    let mut i: usize = 0;
    proof {
        assert(fv.take(0) =~= Seq::<FuncV>::empty());
    }
    while i < ir.len()
        invariant
            i <= ir@.len(),
            lower_functions(fv.take(i as int), 0) is Ok,
            iviews(final_asm@) == pre + lower_functions(fv.take(i as int), 0)->Ok_0.0,
            counter as nat == lower_functions(fv.take(i as int), 0)->Ok_0.1,
        decreases ir@.len() - i,
    {
        proof {
            assert(fv.take(i + 1).drop_last() =~= fv.take(i as int));
            assert(fv.take(i + 1).last() == fv[i as int]);
            lemma_lower_functions_counter(fv.take(i as int), 0);
            lemma_weight_funcs_take(fv, i as int);
        }
        match generate_function(&ir[i], &mut counter) {
            Ok(mut fi) => {
                final_asm.append(&mut fi);
            },
            Err(e) => {
                proof {
                    assert(lower_functions(fv.take(i + 1), 0) is Err);
                    lemma_lower_functions_err_prefix(fv, 0, i + 1);
                }
                return Err(CompileError { function: ir[i].name.clone(), error: e });
            },
        }
        i = i + 1;
    }
    proof {
        assert(fv.take(ir@.len() as int) =~= fv);
    }

    final_asm.push(Instruction::Label("_start".to_owned()));
    final_asm.push(Instruction::Call("main".to_owned()));
    final_asm.push(Instruction::Move("eax".to_owned(), "60".to_owned()));
    final_asm.push(Instruction::Xor("rdi".to_owned(), "rdi".to_owned()));
    final_asm.push(Instruction::Syscall);
    proof {
        assert(iviews(final_asm@) =~= program_instrs(fv)->Ok_0);
    }
    Ok(final_asm)
}

/// The x86-64 backend.
pub struct X86_64;

impl Arch for X86_64 {
    /// Generates the whole program's assembly text: header, builtins,
    /// every function in input order, and the entry point that calls
    /// `main` and issues the exit syscall.
    fn generate_asm_string(ir: Vec<IRFunction>) -> (r: Result<String, CompileError>)
        ensures
            match r {
                Ok(s) => program_text(func_seq_view(ir@)) is Ok && s@ == program_text(
                    func_seq_view(ir@),
                )->Ok_0,
                Err(e) => program_text(func_seq_view(ir@)) is Err && e@ == program_text(
                    func_seq_view(ir@),
                )->Err_0,
            },
    {
        match generate_program(&ir) {
            Ok(instrs) => Ok(crate::instructions::format(instrs.as_slice())),
            Err(e) => Err(e),
        }
    }
}


/// Checks the size bounds under which code generation cannot overflow
/// its offset and label arithmetic; callers establish it before
/// generating.  Any program that fits in memory passes.
#[verifier::loop_isolation(false)]
pub fn program_fits(ir: &Vec<IRFunction>) -> (r: bool)
    ensures
        r == fits_program(func_seq_view(ir@)),
{
    broadcast use lemma_func_seq_view_props;

    let ghost fv = func_seq_view(ir@);
    let mut weight: u64 = 0;
    let mut i: usize = 0;
    proof {
        assert(fv.take(0) =~= Seq::<FuncV>::empty());
    }
    while i < ir.len()
        invariant
            i <= ir@.len(),
            weight as nat == crate::function::capped(weight_funcs(fv.take(i as int))),
            forall|k: int| 0 <= k < i ==> decl_total(#[trigger] fv[k]) <= 0x1000_0000,
        decreases ir@.len() - i,
    {
        proof {
            assert(fv.take(i + 1).drop_last() =~= fv.take(i as int));
            assert(fv.take(i + 1).last() == fv[i as int]);
        }
        if !crate::variables::function_fits(&ir[i]) {
            return false;
        }
        let w = crate::function::function_weight(&ir[i]);
        proof {
            assert(w as nat == crate::function::capped(weight_stmts(fv[i as int].statements)));
        }
        weight = cap_add_weights(weight, w);
        i = i + 1;
    }
    proof {
        assert(fv.take(ir@.len() as int) =~= fv);
    }
    weight <= 0x1000_0000
}

fn cap_add_weights(a: u64, b: u64) -> (r: u64)
    requires
        a <= 0x1000_0001,
        b <= 0x1000_0001,
    ensures
        r as nat == crate::function::capped((a + b) as nat),
{
    if a + b > 0x1000_0000 {
        0x1000_0001
    } else {
        a + b
    }
}

} // verus!
