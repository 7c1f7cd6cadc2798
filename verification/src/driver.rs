//! The whole compiler: from source text to assembly text.

use vstd::prelude::*;
use crate::codegen::asm_gen::{asm_text, generate_asm};
use crate::codegen::{generate_x86_code, x86_program, x86_view, X86Instr, X86InstrView};
use crate::errors::{CompileError, CompileErrorView};
use crate::parser::{generate_program_ast, parse_program, Program};
use crate::tac::stmt::{generate_function_tac, lower_function, lowering_view};
use crate::tac::{TacInstr, TacInstrView};
use crate::tokenizer::{get_tokens, lex};

verus! {

/// The three-address code of a program: that of its function.
pub fn generate_tac(program: &Program) -> (res: Result<Vec<TacInstr>, CompileError>)
    ensures
        lowering_view(res) == lower_function(program@.function),
{
    generate_function_tac(&program.function)
}

/// The name of the function of a source text and its machine
/// instructions: the text is split into tokens, the tokens are parsed,
/// the tree is lowered to three-address code, and that code is expanded.
/// The first stage that fails gives the error.
pub open spec fn compile_to_x86_model(source: Seq<char>) -> Result<
    (Seq<char>, Seq<X86InstrView>),
    CompileErrorView,
> {
    match lex(source) {
        Err(e) => Err(e),
        Ok(tokens) => match parse_program(tokens) {
            Err(e) => Err(e),
            Ok(program) => match lower_function(program.function) {
                Err(e) => Err(e),
                Ok(tac) => match x86_program(tac) {
                    Err(e) => Err(e),
                    Ok(code) => Ok((program.function.name, code)),
                },
            },
        },
    }
}

/// The assembly text of a source text.
pub open spec fn compile_model(source: Seq<char>) -> Result<Seq<char>, CompileErrorView> {
    match compile_to_x86_model(source) {
        Err(e) => Err(e),
        Ok((name, code)) => Ok(asm_text(name, code)),
    }
}

/// The mathematical value of what [`compile_to_x86`] returns.
pub open spec fn x86_result_view(res: Result<(String, Vec<X86Instr>), CompileError>) -> Result<
    (Seq<char>, Seq<X86InstrView>),
    CompileErrorView,
> {
    match res {
        Ok((name, code)) => Ok((name@, x86_view(code@))),
        Err(e) => Err(e@),
    }
}

/// The mathematical value of what [`compile`] returns.
pub open spec fn text_result_view(res: Result<String, CompileError>) -> Result<
    Seq<char>,
    CompileErrorView,
> {
    match res {
        Ok(text) => Ok(text@),
        Err(e) => Err(e@),
    }
}

/// Compiles a source text to the name of its function and its machine
/// instructions.
pub fn compile_to_x86(source: String) -> (res: Result<(String, Vec<X86Instr>), CompileError>)
    ensures
        x86_result_view(res) == compile_to_x86_model(source@),
{
    let tokens = match get_tokens(source) {
        Ok(t) => t,
        Err(e) => {
            return Err(e);
        },
    };
    let program = match generate_program_ast(tokens) {
        Ok(p) => p,
        Err(e) => {
            return Err(e);
        },
    };
    let tac = match generate_tac(&program) {
        Ok(t) => t,
        Err(e) => {
            return Err(e);
        },
    };
    match generate_x86_code(&tac) {
        Ok(code) => Ok((program.function.name, code)),
        Err(e) => Err(e),
    }
}

/// Compiles a source text to assembly text. The result depends on the
/// source text alone: the same text always gives the same assembly text,
/// or the same error.
pub fn compile(source: String) -> (res: Result<String, CompileError>)
    ensures
        text_result_view(res) == compile_model(source@),
{
    match compile_to_x86(source) {
        Ok((name, code)) => Ok(generate_asm(&name, &code)),
        Err(e) => Err(e),
    }
}

/// Determinism: the assembly text of a program in three-address code is
/// decided by that program alone. Two runs of the generator on the same
/// program, each of which meets the contract of the generator, give the
/// same text or the same error.
pub proof fn lemma_generation_deterministic(
    name: Seq<char>,
    code: Seq<TacInstrView>,
    first: Result<Seq<X86InstrView>, CompileErrorView>,
    second: Result<Seq<X86InstrView>, CompileErrorView>,
)
    requires
        first == x86_program(code),
        second == x86_program(code),
    ensures
        first == second,
        first matches Ok(a) ==> second matches Ok(b) && asm_text(name, a) == asm_text(name, b),
{
}

/// Determinism of the whole compiler: two runs on the same source text,
/// each of which meets the contract of [`compile`], give the same
/// assembly text or the same error.
pub proof fn lemma_compile_deterministic(
    source: Seq<char>,
    first: Result<Seq<char>, CompileErrorView>,
    second: Result<Seq<char>, CompileErrorView>,
)
    requires
        first == compile_model(source),
        second == compile_model(source),
    ensures
        first == second,
{
}

} // verus!
