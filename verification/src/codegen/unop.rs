//! Machine code for unary operations.

use vstd::prelude::*;
use crate::codegen::reg::Reg;
use crate::codegen::{
    gen_load_val_code, gen_store_code, push_instr, unop_code, val_known, x86_view, CCode,
    Location, RegisterAllocator, X86Instr,
};
use crate::parser::expr_parser::UnOp;
use crate::tac::{Identifier, TacVal};

verus! {

/// Appends the expansion of `dst_ident = op val`.
pub fn gen_unop_code(
    result: &mut Vec<X86Instr>,
    dst_ident: &Identifier,
    val: &TacVal,
    op: UnOp,
    reg_alloc: &RegisterAllocator,
)
    requires
        reg_alloc.wf(),
        reg_alloc@.contains(*dst_ident),
        val_known(*val, reg_alloc@),
    ensures
        x86_view(final(result)@) == x86_view(old(result)@) + unop_code(
            *dst_ident,
            *val,
            op,
            reg_alloc@,
        ),
{
    let ghost before = x86_view(result@);
    gen_load_val_code(result, val, Reg::Rdi, reg_alloc);
    match op {
        UnOp::Negation => push_instr(result, X86Instr::Neg { dst: Reg::Rdi }),
        UnOp::BitwiseComplement => push_instr(result, X86Instr::Not { dst: Reg::Rdi }),
        UnOp::LogicalNot => {
            push_instr(result, X86Instr::Test { src: Reg::Rdi });
            push_instr(result, X86Instr::MovImm { dst: Location::Reg(Reg::Rdi), imm: 0 });
            push_instr(result, X86Instr::SetCC { dst: Reg::Rdi, condition: CCode::E });
        },
    }
    gen_store_code(result, *dst_ident, Reg::Rdi, reg_alloc);
    assert(x86_view(result@) =~= before + unop_code(*dst_ident, *val, op, reg_alloc@));
}

} // verus!
