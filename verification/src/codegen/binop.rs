//! Machine code for binary operations.

use vstd::prelude::*;
use crate::codegen::reg::Reg;
use crate::codegen::{
    binop_code, gen_load_val_code, gen_store_code, push_instr, val_known, x86_view, CCode,
    Location, RegisterAllocator, X86Instr,
};
use crate::errors::{CompileError, CompileErrorView};
use crate::parser::expr_parser::BinOp;
use crate::tac::{Identifier, TacVal};

verus! {

/// Appends the expansion of `dst_ident = val1 op val2`. The two logical
/// operators have none: they never reach this stage as instructions.
pub fn gen_binop_code(
    result: &mut Vec<X86Instr>,
    dst_ident: &Identifier,
    val1: &TacVal,
    val2: &TacVal,
    op: BinOp,
    reg_alloc: &RegisterAllocator,
) -> (res: Result<(), CompileError>)
    requires
        reg_alloc.wf(),
        reg_alloc@.contains(*dst_ident),
        val_known(*val1, reg_alloc@),
        val_known(*val2, reg_alloc@),
    ensures
        match binop_code(*dst_ident, *val1, *val2, op, reg_alloc@) {
            Some(code) => res is Ok && x86_view(final(result)@) == x86_view(old(result)@) + code,
            None => res matches Err(e) && e@ == CompileErrorView::UnsupportedInstruction,
        },
{
    let ghost before = x86_view(result@);
    match op {
        BinOp::LogicalAnd | BinOp::LogicalOr => {
            return Err(CompileError::UnsupportedInstruction);
        },
        BinOp::Divide | BinOp::Modulus => {
            gen_load_val_code(result, val1, Reg::Rax, reg_alloc);
            push_instr(result, X86Instr::Cdq);
            gen_load_val_code(result, val2, Reg::Rdi, reg_alloc);
            push_instr(result, X86Instr::Idiv { src: Reg::Rdi });
            let quotient = match op {
                BinOp::Divide => true,
                _ => false,
            };
            if quotient {
                gen_store_code(result, *dst_ident, Reg::Rax, reg_alloc);
            } else {
                gen_store_code(result, *dst_ident, Reg::Rdx, reg_alloc);
            }
        },
        _ => {
            gen_load_val_code(result, val1, Reg::Rdi, reg_alloc);
            gen_load_val_code(result, val2, Reg::Rsi, reg_alloc);
            match op {
                BinOp::Plus => push_instr(result, X86Instr::Add { dst: Reg::Rdi, src: Reg::Rsi }),
                BinOp::Minus => push_instr(result, X86Instr::Sub { dst: Reg::Rdi, src: Reg::Rsi }),
                BinOp::Multiply => push_instr(
                    result,
                    X86Instr::IMul { dst: Reg::Rdi, src: Reg::Rsi },
                ),
                _ => {
                    let condition = comparison_condition(op);
                    push_instr(result, X86Instr::Cmp { left: Reg::Rdi, right: Reg::Rsi });
                    push_instr(result, X86Instr::MovImm { dst: Location::Reg(Reg::Rdi), imm: 0 });
                    push_instr(result, X86Instr::SetCC { dst: Reg::Rdi, condition });
                },
            }
            gen_store_code(result, *dst_ident, Reg::Rdi, reg_alloc);
        },
    }
    assert(x86_view(result@) =~= before + binop_code(
        *dst_ident,
        *val1,
        *val2,
        op,
        reg_alloc@,
    ).unwrap());
    Ok(())
}

/// The condition under which a comparison yields 1.
pub fn comparison_condition(op: BinOp) -> (c: CCode)
    requires
        crate::codegen::comparison_code(op) is Some,
    ensures
        Some(c) == crate::codegen::comparison_code(op),
{
    match op {
        BinOp::Equals => CCode::E,
        BinOp::NotEquals => CCode::NE,
        BinOp::LessThan => CCode::L,
        BinOp::LessThanEq => CCode::LE,
        BinOp::GreaterThan => CCode::G,
        _ => CCode::GE,
    }
}

} // verus!
