//! Machine instructions as assembly text, in the Intel syntax of the GNU
//! assembler. Values are 32 bits wide, so instructions name the 32-bit
//! halves of the registers; the frame pointer and the stack pointer are
//! named in full.

use vstd::prelude::*;
use vstd::string::StringExecFns;
use crate::codegen::reg::Reg;
use crate::codegen::{ccode_suffix, x86_view, CCode, Location, X86Instr, X86InstrView};
use crate::text::{decimal_digits, push_decimal};

verus! {

/// The name of the whole of a register.
pub open spec fn reg_name(r: Reg) -> Seq<char> {
    match r {
        Reg::Rax => "rax"@,
        Reg::Rcx => "rcx"@,
        Reg::Rdx => "rdx"@,
        Reg::Rsi => "rsi"@,
        Reg::Rdi => "rdi"@,
        Reg::Rbp => "rbp"@,
        Reg::Rsp => "rsp"@,
        Reg::R8 => "r8"@,
        Reg::R9 => "r9"@,
    }
}

/// The name of the low 32 bits of a register; of the whole register for
/// the frame pointer and the stack pointer.
pub open spec fn reg_name_32(r: Reg) -> Seq<char> {
    match r {
        Reg::Rax => "eax"@,
        Reg::Rcx => "ecx"@,
        Reg::Rdx => "edx"@,
        Reg::Rsi => "esi"@,
        Reg::Rdi => "edi"@,
        Reg::Rbp => "rbp"@,
        Reg::Rsp => "rsp"@,
        Reg::R8 => "r8d"@,
        Reg::R9 => "r9d"@,
    }
}

/// The name of the low 8 bits of a register.
pub open spec fn reg_name_8(r: Reg) -> Seq<char> {
    match r {
        Reg::Rax => "al"@,
        Reg::Rcx => "cl"@,
        Reg::Rdx => "dl"@,
        Reg::Rsi => "sil"@,
        Reg::Rdi => "dil"@,
        Reg::Rbp => "bpl"@,
        Reg::Rsp => "spl"@,
        Reg::R8 => "r8b"@,
        Reg::R9 => "r9b"@,
    }
}

/// A number in decimal, with a minus sign if it is negative.
pub open spec fn signed_decimal(n: int) -> Seq<char> {
    if n < 0 {
        "-"@ + decimal_digits((-n) as nat)
    } else {
        decimal_digits(n as nat)
    }
}

/// A location as an operand: the name of a register, or the address of a
/// slot below the frame pointer.
pub open spec fn location_text(l: Location) -> Seq<char> {
    match l {
        Location::Reg(r) => reg_name_32(r),
        Location::Mem(offset) => "DWORD PTR [rbp - "@ + decimal_digits(offset as nat) + "]"@,
    }
}

/// An instruction with no operand.
pub open spec fn line0(mnemonic: Seq<char>) -> Seq<char> {
    "    "@ + mnemonic + "\n"@
}

/// An instruction with one operand.
pub open spec fn line1(mnemonic: Seq<char>, a: Seq<char>) -> Seq<char> {
    "    "@ + mnemonic + " "@ + a + "\n"@
}

/// An instruction with two operands.
pub open spec fn line2(mnemonic: Seq<char>, a: Seq<char>, b: Seq<char>) -> Seq<char> {
    "    "@ + mnemonic + " "@ + a + ", "@ + b + "\n"@
}

/// Whether a constant can be moved into the low 32 bits of a register
/// without loss.
pub open spec fn fits_32(n: i64) -> bool {
    -0x8000_0000 <= n <= 0x7fff_ffff
}

/// The line of assembly text that writes an instruction.
pub open spec fn asm_line(i: X86InstrView) -> Seq<char> {
    match i {
        X86InstrView::Push { reg } => line1("push"@, reg_name(reg)),
        X86InstrView::Pop { reg } => line1("pop"@, reg_name(reg)),
        X86InstrView::Mov { dst, src } => line2("mov"@, location_text(dst), location_text(src)),
        X86InstrView::MovImm { dst, imm } => match dst {
            Location::Reg(r) => if fits_32(imm) {
                line2("mov"@, reg_name_32(r), signed_decimal(imm as int))
            } else {
                line2("mov"@, reg_name(r), signed_decimal(imm as int))
            },
            Location::Mem(_) => line2("mov"@, location_text(dst), signed_decimal(imm as int)),
        },
        X86InstrView::Add { dst, src } => line2("add"@, reg_name_32(dst), reg_name_32(src)),
        X86InstrView::Sub { dst, src } => line2("sub"@, reg_name_32(dst), reg_name_32(src)),
        X86InstrView::IMul { dst, src } => line2("imul"@, reg_name_32(dst), reg_name_32(src)),
        X86InstrView::SubImm { dst, imm } => line2(
            "sub"@,
            reg_name_32(dst),
            signed_decimal(imm as int),
        ),
        X86InstrView::Cdq => line0("cdq"@),
        X86InstrView::Idiv { src } => line1("idiv"@, reg_name_32(src)),
        X86InstrView::Label { name } => name + ":\n"@,
        X86InstrView::Jmp { label } => line1("jmp"@, label),
        X86InstrView::JmpCC { label, condition } => line1("j"@ + ccode_suffix(condition), label),
        X86InstrView::SetCC { dst, condition } => line1(
            "set"@ + ccode_suffix(condition),
            reg_name_8(dst),
        ),
        X86InstrView::Test { src } => line2("test"@, reg_name_32(src), reg_name_32(src)),
        X86InstrView::Cmp { left, right } => line2("cmp"@, reg_name_32(left), reg_name_32(right)),
        X86InstrView::Not { dst } => line1("not"@, reg_name_32(dst)),
        X86InstrView::Neg { dst } => line1("neg"@, reg_name_32(dst)),
        X86InstrView::Call { name } => line1("call"@, name),
        X86InstrView::Syscall => line0("syscall"@),
    }
}

/// The lines of all instructions, in order.
pub open spec fn asm_lines(code: Seq<X86InstrView>) -> Seq<char>
    decreases code.len(),
{
    if code.len() == 0 {
        Seq::empty()
    } else {
        asm_lines(code.drop_last()) + asm_line(code.last())
    }
}

/// The assembly text of a function: what tells the assembler the syntax
/// and makes the name of the function known to the linker, the name as a
/// label, and the lines of the instructions.
pub open spec fn asm_text(name: Seq<char>, code: Seq<X86InstrView>) -> Seq<char> {
    ".intel_syntax noprefix\n.globl "@ + name + "\n"@ + name + ":\n"@ + asm_lines(code)
}

fn reg_text(r: Reg) -> (s: String)
    ensures
        s@ == reg_name(r),
{
    match r {
        Reg::Rax => "rax".to_owned(),
        Reg::Rcx => "rcx".to_owned(),
        Reg::Rdx => "rdx".to_owned(),
        Reg::Rsi => "rsi".to_owned(),
        Reg::Rdi => "rdi".to_owned(),
        Reg::Rbp => "rbp".to_owned(),
        Reg::Rsp => "rsp".to_owned(),
        Reg::R8 => "r8".to_owned(),
        Reg::R9 => "r9".to_owned(),
    }
}

fn reg_text_32(r: Reg) -> (s: String)
    ensures
        s@ == reg_name_32(r),
{
    match r {
        Reg::Rax => "eax".to_owned(),
        Reg::Rcx => "ecx".to_owned(),
        Reg::Rdx => "edx".to_owned(),
        Reg::Rsi => "esi".to_owned(),
        Reg::Rdi => "edi".to_owned(),
        Reg::Rbp => "rbp".to_owned(),
        Reg::Rsp => "rsp".to_owned(),
        Reg::R8 => "r8d".to_owned(),
        Reg::R9 => "r9d".to_owned(),
    }
}

fn reg_text_8(r: Reg) -> (s: String)
    ensures
        s@ == reg_name_8(r),
{
    match r {
        Reg::Rax => "al".to_owned(),
        Reg::Rcx => "cl".to_owned(),
        Reg::Rdx => "dl".to_owned(),
        Reg::Rsi => "sil".to_owned(),
        Reg::Rdi => "dil".to_owned(),
        Reg::Rbp => "bpl".to_owned(),
        Reg::Rsp => "spl".to_owned(),
        Reg::R8 => "r8b".to_owned(),
        Reg::R9 => "r9b".to_owned(),
    }
}

fn with_condition(start: &str, c: CCode) -> (s: String)
    ensures
        s@ == start@ + ccode_suffix(c),
{
    let mut s = start.to_owned();
    match c {
        CCode::E => s.append("e"),
        CCode::NE => s.append("ne"),
        CCode::L => s.append("l"),
        CCode::LE => s.append("le"),
        CCode::G => s.append("g"),
        CCode::GE => s.append("ge"),
    }
    s
}

fn signed_text(n: i64) -> (s: String)
    ensures
        s@ == signed_decimal(n as int),
{
    let mut s = String::new();
    if n < 0 {
        s.append("-");
        let magnitude: u64 = (-(n + 1)) as u64 + 1;
        push_decimal(&mut s, magnitude);
        assert(s@ =~= signed_decimal(n as int));
    } else {
        push_decimal(&mut s, n as u64);
        assert(s@ =~= signed_decimal(n as int));
    }
    s
}

fn location_string(l: Location) -> (s: String)
    ensures
        s@ == location_text(l),
{
    match l {
        Location::Reg(r) => reg_text_32(r),
        Location::Mem(offset) => {
            let mut s = "DWORD PTR [rbp - ".to_owned();
            push_decimal(&mut s, offset as u64);
            s.append("]");
            s
        },
    }
}

fn put_line0(out: &mut String, mnemonic: &str)
    ensures
        final(out)@ == old(out)@ + line0(mnemonic@),
{
    out.append("    ");
    out.append(mnemonic);
    out.append("\n");
    assert(out@ =~= old(out)@ + line0(mnemonic@));
}

fn put_line1(out: &mut String, mnemonic: &str, a: &str)
    ensures
        final(out)@ == old(out)@ + line1(mnemonic@, a@),
{
    out.append("    ");
    out.append(mnemonic);
    out.append(" ");
    out.append(a);
    out.append("\n");
    assert(out@ =~= old(out)@ + line1(mnemonic@, a@));
}

fn put_line2(out: &mut String, mnemonic: &str, a: &str, b: &str)
    ensures
        final(out)@ == old(out)@ + line2(mnemonic@, a@, b@),
{
    out.append("    ");
    out.append(mnemonic);
    out.append(" ");
    out.append(a);
    out.append(", ");
    out.append(b);
    out.append("\n");
    assert(out@ =~= old(out)@ + line2(mnemonic@, a@, b@));
}

fn put_mov_imm(out: &mut String, dst: Location, imm: i64)
    ensures
        final(out)@ == old(out)@ + asm_line(X86InstrView::MovImm { dst, imm }),
{
    let target = match dst {
        Location::Reg(r) => {
            if -0x8000_0000 <= imm && imm <= 0x7fff_ffff {
                reg_text_32(r)
            } else {
                reg_text(r)
            }
        },
        Location::Mem(_) => location_string(dst),
    };
    put_line2(out, "mov", target.as_str(), signed_text(imm).as_str());
}

/// Appends the line of assembly text that writes an instruction.
pub fn put_instr(out: &mut String, instr: &X86Instr)
    ensures
        final(out)@ == old(out)@ + asm_line(instr@),
{
    match instr {
        X86Instr::Label { name } => {
            out.append(name.as_str());
            out.append(":\n");
            assert(out@ =~= old(out)@ + asm_line(instr@));
        },
        X86Instr::Cdq => put_line0(out, "cdq"),
        X86Instr::Syscall => put_line0(out, "syscall"),
        X86Instr::Push { reg } => put_line1(out, "push", reg_text(*reg).as_str()),
        X86Instr::Pop { reg } => put_line1(out, "pop", reg_text(*reg).as_str()),
        X86Instr::Idiv { src } => put_line1(out, "idiv", reg_text_32(*src).as_str()),
        X86Instr::Not { dst } => put_line1(out, "not", reg_text_32(*dst).as_str()),
        X86Instr::Neg { dst } => put_line1(out, "neg", reg_text_32(*dst).as_str()),
        X86Instr::Jmp { label } => put_line1(out, "jmp", label.as_str()),
        X86Instr::Call { name } => put_line1(out, "call", name.as_str()),
        X86Instr::JmpCC { label, condition } => put_line1(
            out,
            with_condition("j", *condition).as_str(),
            label.as_str(),
        ),
        X86Instr::SetCC { dst, condition } => put_line1(
            out,
            with_condition("set", *condition).as_str(),
            reg_text_8(*dst).as_str(),
        ),
        X86Instr::Mov { dst, src } => put_line2(
            out,
            "mov",
            location_string(*dst).as_str(),
            location_string(*src).as_str(),
        ),
        X86Instr::MovImm { dst, imm } => put_mov_imm(out, *dst, *imm),
        X86Instr::Add { dst, src } => put_line2(
            out,
            "add",
            reg_text_32(*dst).as_str(),
            reg_text_32(*src).as_str(),
        ),
        X86Instr::Sub { dst, src } => put_line2(
            out,
            "sub",
            reg_text_32(*dst).as_str(),
            reg_text_32(*src).as_str(),
        ),
        X86Instr::IMul { dst, src } => put_line2(
            out,
            "imul",
            reg_text_32(*dst).as_str(),
            reg_text_32(*src).as_str(),
        ),
        X86Instr::Cmp { left, right } => put_line2(
            out,
            "cmp",
            reg_text_32(*left).as_str(),
            reg_text_32(*right).as_str(),
        ),
        X86Instr::Test { src } => put_line2(
            out,
            "test",
            reg_text_32(*src).as_str(),
            reg_text_32(*src).as_str(),
        ),
        X86Instr::SubImm { dst, imm } => put_line2(
            out,
            "sub",
            reg_text_32(*dst).as_str(),
            signed_text(*imm as i64).as_str(),
        ),
    }
}

/// Writes the assembly text of a function.
pub fn generate_asm(function_name: &String, instrs: &Vec<X86Instr>) -> (text: String)
    ensures
        text@ == asm_text(function_name@, x86_view(instrs@)),
{
    let ghost code = x86_view(instrs@);
    let mut out = String::new();
    out.append(".intel_syntax noprefix\n.globl ");
    out.append(function_name.as_str());
    out.append("\n");
    out.append(function_name.as_str());
    out.append(":\n");
    let ghost head = out@;
    assert(head =~= ".intel_syntax noprefix\n.globl "@ + function_name@ + "\n"@ + function_name@
        + ":\n"@);
    assert(out@ =~= head + asm_lines(code.take(0)));
    let mut i: usize = 0;
    while i < instrs.len()
        invariant
            i <= instrs.len(),
            code == x86_view(instrs@),
            out@ == head + asm_lines(code.take(i as int)),
        decreases instrs.len() - i,
    {
        assert(code.take(i + 1).drop_last() =~= code.take(i as int));
        assert(code.take(i + 1).last() == instrs@[i as int]@);
        put_instr(&mut out, &instrs[i]);
        assert(out@ =~= head + asm_lines(code.take(i + 1)));
        i += 1;
    }
    assert(code.take(i as int) =~= code);
    out
}

} // verus!
