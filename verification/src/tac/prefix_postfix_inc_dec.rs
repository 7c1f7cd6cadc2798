//! Lowering of `++` and `--`.

use vstd::prelude::*;
use crate::errors::CompileError;
use crate::parser::expr_parser::BinOp;
use crate::tac::expr::{
    deliver_value, lower_postfix, lower_prefix, lowered_as, step_instr,
};
use crate::tac::{
    emit, resolve_variable_to_temp_name, tac_view, CodeEnv, Identifier, TacContext, TacInstr,
    TacInstrView, TacVal,
};

verus! {

fn gen_postfix_tac(
    var: &String,
    op: BinOp,
    code_env: &CodeEnv,
    target_temp_name: Option<Identifier>,
    ctx: &mut TacContext,
) -> (res: Result<(Vec<TacInstr>, TacVal), CompileError>)
    ensures
        lowered_as(
            res,
            *final(ctx),
            lower_postfix(var@, op, code_env@.vars, target_temp_name, *old(ctx)),
        ),
{
    let id = match resolve_variable_to_temp_name(var, code_env) {
        Ok(id) => id,
        Err(e) => {
            return Err(e);
        },
    };
    let kept = match ctx.get_new_temp_name(id.1) {
        Ok(t) => t,
        Err(e) => {
            return Err(e);
        },
    };
    let mut result: Vec<TacInstr> = Vec::new();
    emit(&mut result, TacInstr::Copy(kept, TacVal::Var(id)));
    emit(&mut result, TacInstr::BinOp(id, TacVal::Var(id), TacVal::Lit(1, id.1), op));
    assert(tac_view(result@) =~= seq![TacInstrView::Copy(kept, TacVal::Var(id)), step_instr(id, op)]);
    Ok(deliver_value(result, TacVal::Var(kept), target_temp_name))
}

fn gen_prefix_tac(
    var: &String,
    op: BinOp,
    code_env: &CodeEnv,
    target_temp_name: Option<Identifier>,
    ctx: &TacContext,
) -> (res: Result<(Vec<TacInstr>, TacVal), CompileError>)
    ensures
        lowered_as(res, *ctx, lower_prefix(var@, op, code_env@.vars, target_temp_name, *ctx)),
{
    let id = match resolve_variable_to_temp_name(var, code_env) {
        Ok(id) => id,
        Err(e) => {
            return Err(e);
        },
    };
    let mut result: Vec<TacInstr> = Vec::new();
    emit(&mut result, TacInstr::BinOp(id, TacVal::Var(id), TacVal::Lit(1, id.1), op));
    assert(tac_view(result@) =~= seq![step_instr(id, op)]);
    let held = match target_temp_name {
        Some(t) => t == id,
        None => false,
    };
    if held {
        Ok((result, TacVal::Var(id)))
    } else {
        Ok(deliver_value(result, TacVal::Var(id), target_temp_name))
    }
}

/// Lowers `var++`: the value is that of the variable before it grows by
/// one. With a target, the target is written last.
pub fn gen_postfix_inc_tac(
    var: &String,
    code_env: &CodeEnv,
    target_temp_name: Option<Identifier>,
    ctx: &mut TacContext,
) -> (res: Result<(Vec<TacInstr>, TacVal), CompileError>)
    ensures
        lowered_as(
            res,
            *final(ctx),
            lower_postfix(var@, BinOp::Plus, code_env@.vars, target_temp_name, *old(ctx)),
        ),
{
    gen_postfix_tac(var, BinOp::Plus, code_env, target_temp_name, ctx)
}

/// Lowers `var--`: the value is that of the variable before it shrinks by
/// one. With a target, the target is written last.
pub fn gen_postfix_dec_tac(
    var: &String,
    code_env: &CodeEnv,
    target_temp_name: Option<Identifier>,
    ctx: &mut TacContext,
) -> (res: Result<(Vec<TacInstr>, TacVal), CompileError>)
    ensures
        lowered_as(
            res,
            *final(ctx),
            lower_postfix(var@, BinOp::Minus, code_env@.vars, target_temp_name, *old(ctx)),
        ),
{
    gen_postfix_tac(var, BinOp::Minus, code_env, target_temp_name, ctx)
}

/// Lowers `++var`: the variable grows by one, and the value is that of
/// the variable afterwards.
pub fn gen_prefix_inc_tac(
    var: &String,
    code_env: &CodeEnv,
    target_temp_name: Option<Identifier>,
    ctx: &mut TacContext,
) -> (res: Result<(Vec<TacInstr>, TacVal), CompileError>)
    ensures
        lowered_as(
            res,
            *final(ctx),
            lower_prefix(var@, BinOp::Plus, code_env@.vars, target_temp_name, *old(ctx)),
        ),
{
    gen_prefix_tac(var, BinOp::Plus, code_env, target_temp_name, ctx)
}

/// Lowers `--var`: the variable shrinks by one, and the value is that of
/// the variable afterwards.
pub fn gen_prefix_dec_tac(
    var: &String,
    code_env: &CodeEnv,
    target_temp_name: Option<Identifier>,
    ctx: &mut TacContext,
) -> (res: Result<(Vec<TacInstr>, TacVal), CompileError>)
    ensures
        lowered_as(
            res,
            *final(ctx),
            lower_prefix(var@, BinOp::Minus, code_env@.vars, target_temp_name, *old(ctx)),
        ),
{
    gen_prefix_tac(var, BinOp::Minus, code_env, target_temp_name, ctx)
}

} // verus!
