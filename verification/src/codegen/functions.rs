//! Machine code for calls.

use vstd::prelude::*;
use crate::codegen::reg::{argument_register, Reg};
use crate::codegen::{
    call_code, gen_load_val_code, gen_store_code, load_args, push_instr, register_args,
    val_known, x86_view, RegisterAllocator, X86Instr,
};
use crate::tac::{Identifier, TacVal};

verus! {

/// Appends the expansion of a call: the first six arguments go into the
/// argument registers in order, and the returned value, if it has a
/// destination, is stored from the accumulator.
pub fn generate_function_call_code(
    result: &mut Vec<X86Instr>,
    function_name: &String,
    args: &Vec<TacVal>,
    optional_ident: Option<Identifier>,
    reg_alloc: &RegisterAllocator,
)
    requires
        reg_alloc.wf(),
        forall|k: int| 0 <= k < args@.len() ==> val_known(#[trigger] args@[k], reg_alloc@),
        optional_ident matches Some(id) ==> reg_alloc@.contains(id),
    ensures
        x86_view(final(result)@) == x86_view(old(result)@) + call_code(
            function_name@,
            args@,
            optional_ident,
            reg_alloc@,
        ),
{
    let ghost before = x86_view(result@);
    let count: usize = if args.len() < 6 {
        args.len()
    } else {
        6
    };
    let mut i: usize = 0;
    while i < count
        invariant
            i <= count,
            count == register_args(args@),
            reg_alloc.wf(),
            forall|k: int| 0 <= k < args@.len() ==> val_known(#[trigger] args@[k], reg_alloc@),
            x86_view(result@) == before + load_args(args@, reg_alloc@).take(i as int),
        decreases count - i,
    {
        gen_load_val_code(result, &args[i], argument_register(i), reg_alloc);
        assert(load_args(args@, reg_alloc@).take(i + 1) =~= load_args(args@, reg_alloc@).take(
            i as int,
        ).push(load_args(args@, reg_alloc@)[i as int]));
        assert(x86_view(result@) =~= before + load_args(args@, reg_alloc@).take(i + 1));
        i += 1;
    }
    assert(load_args(args@, reg_alloc@).take(i as int) =~= load_args(args@, reg_alloc@));
    push_instr(result, X86Instr::Call { name: function_name.clone() });
    match optional_ident {
        Some(id) => gen_store_code(result, id, Reg::Rax, reg_alloc),
        None => {},
    }
    assert(x86_view(result@) =~= before + call_code(
        function_name@,
        args@,
        optional_ident,
        reg_alloc@,
    ));
}

} // verus!
