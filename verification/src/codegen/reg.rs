//! The machine registers that generated code uses.

use vstd::prelude::*;

verus! {

/// A 64-bit general-purpose register.
#[derive(Clone, Copy, Debug, PartialEq, Eq, Structural)]
pub enum Reg {
    Rax,
    Rcx,
    Rdx,
    Rsi,
    Rdi,
    Rbp,
    Rsp,
    R8,
    R9,
}

/// Whether the register holds the frame pointer or the stack pointer.
pub open spec fn is_frame_reg(r: Reg) -> bool {
    r == Reg::Rbp || r == Reg::Rsp
}

/// The register that carries the integer argument with the given index.
pub open spec fn arg_reg(i: int) -> Reg {
    if i == 0 {
        Reg::Rdi
    } else if i == 1 {
        Reg::Rsi
    } else if i == 2 {
        Reg::Rdx
    } else if i == 3 {
        Reg::Rcx
    } else if i == 4 {
        Reg::R8
    } else {
        Reg::R9
    }
}

/// The register that carries the integer argument with the given index.
pub fn argument_register(i: usize) -> (r: Reg)
    requires
        i < 6,
    ensures
        r == arg_reg(i as int),
{
    if i == 0 {
        Reg::Rdi
    } else if i == 1 {
        Reg::Rsi
    } else if i == 2 {
        Reg::Rdx
    } else if i == 3 {
        Reg::Rcx
    } else if i == 4 {
        Reg::R8
    } else {
        Reg::R9
    }
}

} // verus!
