//! The target instruction vocabulary and its rendering to assembly text.
//!
//! Every instruction renders to exactly one line.  Operands are textual
//! register and memory references; the specification-level mirror of an
//! instruction ([`InstructionV`]) carries the operands as character
//! sequences so that contracts can pin the emitted text down exactly.

use vstd::prelude::*;
use vstd::string::*;

verus! {

/// The registers of the 64-bit target that the code generator names.
#[derive(Debug, PartialEq)]
pub enum Register {
    RAX,
    RBX,
    RCX,
    RDX,
    /// Stack-Pointer
    RSP,
    /// Stack-Base-Pointer
    RBP,
    RSI,
    RDI,
}

impl Register {
    /// The conventional mnemonic of the register.
    pub open spec fn spec_name(self) -> Seq<char> {
        match self {
            Register::RAX => "rax"@,
            Register::RBX => "rbx"@,
            Register::RCX => "rcx"@,
            Register::RDX => "rdx"@,
            Register::RSP => "rsp"@,
            Register::RBP => "rbp"@,
            Register::RSI => "rsi"@,
            Register::RDI => "rdi"@,
        }
    }

    pub fn to_string(&self) -> (r: String)
        ensures
            r@ == self.spec_name(),
    {
        match self {
            Register::RAX => String::from_str("rax"),
            Register::RBX => String::from_str("rbx"),
            Register::RCX => String::from_str("rcx"),
            Register::RDX => String::from_str("rdx"),
            Register::RSP => String::from_str("rsp"),
            Register::RBP => String::from_str("rbp"),
            Register::RSI => String::from_str("rsi"),
            Register::RDI => String::from_str("rdi"),
        }
    }
}

/// One instruction (or directive, label or comment) of the emitted
/// assembly, with textual operands.
#[derive(Debug, PartialEq)]
pub enum Instruction {
    Comment(String),
    Section(String),
    Label(String),
    Add(String, String),
    Sub(String, String),
    Xor(String, String),
    Move(String, String),
    Return,
    Push(String),
    Pop(String),
    Call(String),
    Cmp(String, String),
    Je(String),
    Jne(String),
    Jle(String),
    Jg(String),
    Syscall,
    Int(String),
    Lea(String, String),
    Raw(String),
}

/// The specification-level value of an [`Instruction`]: the same shape,
/// with each textual operand abstracted to its character sequence.
#[verifier::ext_equal]
pub enum InstructionV {
    Comment(Seq<char>),
    Section(Seq<char>),
    Label(Seq<char>),
    Add(Seq<char>, Seq<char>),
    Sub(Seq<char>, Seq<char>),
    Xor(Seq<char>, Seq<char>),
    Move(Seq<char>, Seq<char>),
    Return,
    Push(Seq<char>),
    Pop(Seq<char>),
    Call(Seq<char>),
    Cmp(Seq<char>, Seq<char>),
    Je(Seq<char>),
    Jne(Seq<char>),
    Jle(Seq<char>),
    Jg(Seq<char>),
    Syscall,
    Int(Seq<char>),
    Lea(Seq<char>, Seq<char>),
    Raw(Seq<char>),
}

impl View for Instruction {
    type V = InstructionV;

    open spec fn view(&self) -> InstructionV {
        match self {
            Instruction::Comment(a1) => InstructionV::Comment(a1@),
            Instruction::Section(a1) => InstructionV::Section(a1@),
            Instruction::Label(a1) => InstructionV::Label(a1@),
            Instruction::Add(a1, a2) => InstructionV::Add(a1@, a2@),
            Instruction::Sub(a1, a2) => InstructionV::Sub(a1@, a2@),
            Instruction::Xor(a1, a2) => InstructionV::Xor(a1@, a2@),
            Instruction::Move(a1, a2) => InstructionV::Move(a1@, a2@),
            Instruction::Return => InstructionV::Return,
            Instruction::Push(a1) => InstructionV::Push(a1@),
            Instruction::Pop(a1) => InstructionV::Pop(a1@),
            Instruction::Call(a1) => InstructionV::Call(a1@),
            Instruction::Cmp(a1, a2) => InstructionV::Cmp(a1@, a2@),
            Instruction::Je(a1) => InstructionV::Je(a1@),
            Instruction::Jne(a1) => InstructionV::Jne(a1@),
            Instruction::Jle(a1) => InstructionV::Jle(a1@),
            Instruction::Jg(a1) => InstructionV::Jg(a1@),
            Instruction::Syscall => InstructionV::Syscall,
            Instruction::Int(a1) => InstructionV::Int(a1@),
            Instruction::Lea(a1, a2) => InstructionV::Lea(a1@, a2@),
            Instruction::Raw(a1) => InstructionV::Raw(a1@),
        }
    }
}

/// The views of a sequence of instructions.
pub open spec fn iviews(s: Seq<Instruction>) -> Seq<InstructionV> {
    s.map_values(|i: Instruction| i@)
}

pub broadcast proof fn lemma_iviews_props(s: Seq<Instruction>)
    ensures
        #[trigger] iviews(s).len() == s.len(),
        forall|i: int| 0 <= i < s.len() ==> #[trigger] iviews(s)[i] == s[i]@,
{
}

pub broadcast proof fn lemma_iviews_push(s: Seq<Instruction>, x: Instruction)
    ensures
        #[trigger] iviews(s.push(x)) == iviews(s).push(x@),
{
    assert(iviews(s.push(x)) =~= iviews(s).push(x@));
}

pub broadcast proof fn lemma_iviews_add(s1: Seq<Instruction>, s2: Seq<Instruction>)
    ensures
        #[trigger] iviews(s1 + s2) == iviews(s1) + iviews(s2),
{
    assert(iviews(s1 + s2) =~= iviews(s1) + iviews(s2));
}

/// The one line of text that an instruction renders to, without the
/// trailing newline.
pub open spec fn format_line(i: InstructionV) -> Seq<char> {
    match i {
        InstructionV::Comment(a1) => "    ; "@ + a1,
        InstructionV::Section(a1) => "section "@ + a1,
        InstructionV::Label(a1) => "  "@ + a1 + ":"@,
        InstructionV::Add(a1, a2) => "    add "@ + a1 + ", "@ + a2,
        InstructionV::Sub(a1, a2) => "    sub "@ + a1 + ", "@ + a2,
        InstructionV::Xor(a1, a2) => "    xor "@ + a1 + ", "@ + a2,
        InstructionV::Move(a1, a2) => "    mov "@ + a1 + ", "@ + a2,
        InstructionV::Return => "    ret"@,
        InstructionV::Push(a1) => "    push "@ + a1,
        InstructionV::Pop(a1) => "    pop "@ + a1,
        InstructionV::Call(a1) => "    call "@ + a1,
        InstructionV::Cmp(a1, a2) => "    cmp "@ + a1 + ", "@ + a2,
        InstructionV::Je(a1) => "    je "@ + a1,
        InstructionV::Jne(a1) => "    jne "@ + a1,
        InstructionV::Jle(a1) => "    jle "@ + a1,
        InstructionV::Jg(a1) => "    jg "@ + a1,
        InstructionV::Syscall => "    syscall"@,
        InstructionV::Int(a1) => "    int "@ + a1,
        InstructionV::Lea(a1, a2) => "    lea "@ + a1 + ","@ + a2,
        InstructionV::Raw(a1) => a1,
    }
}

fn format_asm(instr: &Instruction) -> (r: String)
    ensures
        r@ == format_line(instr@),
{
    match instr {
        Instruction::Comment(a1) => String::from_str("    ; ").concat(a1.as_str()),
        Instruction::Section(a1) => String::from_str("section ").concat(a1.as_str()),
        Instruction::Label(a1) => String::from_str("  ").concat(a1.as_str()).concat(":"),
        Instruction::Add(a1, a2) => String::from_str("    add ").concat(a1.as_str()).concat(
            ", ",
        ).concat(a2.as_str()),
        Instruction::Sub(a1, a2) => String::from_str("    sub ").concat(a1.as_str()).concat(
            ", ",
        ).concat(a2.as_str()),
        Instruction::Xor(a1, a2) => String::from_str("    xor ").concat(a1.as_str()).concat(
            ", ",
        ).concat(a2.as_str()),
        Instruction::Move(a1, a2) => String::from_str("    mov ").concat(a1.as_str()).concat(
            ", ",
        ).concat(a2.as_str()),
        Instruction::Return => String::from_str("    ret"),
        Instruction::Push(a1) => String::from_str("    push ").concat(a1.as_str()),
        Instruction::Pop(a1) => String::from_str("    pop ").concat(a1.as_str()),
        Instruction::Call(a1) => String::from_str("    call ").concat(a1.as_str()),
        Instruction::Cmp(a1, a2) => String::from_str("    cmp ").concat(a1.as_str()).concat(
            ", ",
        ).concat(a2.as_str()),
        Instruction::Je(a1) => String::from_str("    je ").concat(a1.as_str()),
        Instruction::Jne(a1) => String::from_str("    jne ").concat(a1.as_str()),
        Instruction::Jle(a1) => String::from_str("    jle ").concat(a1.as_str()),
        Instruction::Jg(a1) => String::from_str("    jg ").concat(a1.as_str()),
        Instruction::Syscall => String::from_str("    syscall"),
        Instruction::Int(a1) => String::from_str("    int ").concat(a1.as_str()),
        Instruction::Lea(a1, a2) => String::from_str("    lea ").concat(a1.as_str()).concat(
            ",",
        ).concat(a2.as_str()),
        Instruction::Raw(a1) => a1.clone(),
    }
}

/// The full rendering of an instruction sequence: one line per
/// instruction, each terminated by a newline.
pub open spec fn format_lines(s: Seq<InstructionV>) -> Seq<char>
    decreases s.len(),
{
    if s.len() == 0 {
        Seq::empty()
    } else {
        format_lines(s.drop_last()) + format_line(s.last()) + "\n"@
    }
}

proof fn lemma_format_lines_take(s: Seq<InstructionV>, i: int)
    requires
        0 <= i < s.len(),
    ensures
        format_lines(s.take(i + 1)) == format_lines(s.take(i)) + format_line(s[i]) + "\n"@,
{
    let t = s.take(i + 1);
    assert(t.drop_last() =~= s.take(i));
    assert(t.last() == s[i]);
    assert(format_lines(s.take(i + 1)) == format_lines(s.take(i)) + format_line(s[i]) + "\n"@);
}

/// Renders every instruction to its line of text, in order.
pub fn format(instructions: &[Instruction]) -> (r: String)
    ensures
        r@ == format_lines(iviews(instructions@)),
{
    let mut result = String::new();
    let mut idx: usize = 0;
    while idx < instructions.len()
        invariant
            0 <= idx <= instructions@.len(),
            result@ == format_lines(iviews(instructions@).take(idx as int)),
        decreases instructions@.len() - idx,
    {
        let line = format_asm(&instructions[idx]);
        result.append(line.as_str());
        result.append("\n");
        proof {
            lemma_format_lines_take(iviews(instructions@), idx as int);
            assert(iviews(instructions@)[idx as int] == instructions@[idx as int]@);
            assert(result@ =~= format_lines(iviews(instructions@).take(idx as int + 1)));
        }
        idx = idx + 1;
    }
    proof {
        assert(iviews(instructions@).take(instructions@.len() as int) =~= iviews(instructions@));
    }
    result
}

} // verus!
