//! Lowering of array initialisers.

use vstd::prelude::*;
use crate::errors::{CompileError, CompileErrorView};
use crate::parser::expr_parser::{
    expr_height, exprs_view, heights, lemma_expr_list_view, lemma_heights_bound, BinOp, Expr,
    ExprView,
};
use crate::tac::expr::{generate_expr_tac, lower_expr};
use crate::tac::stmt::CodeTac;
use crate::tac::{
    emit, emit_all, fresh_temp, tac_view, BindingView, CodeEnv, Identifier, TacContext, TacInstr,
    TacInstrView, TacVal,
};
use crate::types::{type_bytes, VarSize, VarType};

verus! {

/// The instruction that moves the pointer `ptr` on by `bytes`.
pub open spec fn advance_instr(ptr: Identifier, bytes: nat) -> TacInstrView {
    TacInstrView::BinOp(
        ptr,
        TacVal::Var(ptr),
        TacVal::Lit(bytes as i64, VarSize::Quad),
        BinOp::Plus,
    )
}

/// The code that fills an array from an initialiser. `ptr` points at the
/// array. Each element is stored through the pointer, which then moves on
/// by the size of an element; an element that is itself an initialiser is
/// filled through a fresh copy of the pointer. It is an error if `e` is no
/// initialiser or `ty` no array, or if an element is too large for its
/// size to be written as an immediate.
pub open spec fn lower_array_init(
    ty: VarType,
    e: ExprView,
    ptr: Identifier,
    vars: Seq<BindingView>,
    ctx: TacContext,
) -> Result<CodeTac, CompileErrorView>
    decreases expr_height(e), 1nat,
{
    match e {
        ExprView::ArrInitExpr(elems) => match ty {
            VarType::Arr(inner, _) => if type_bytes(*inner) > i64::MAX {
                Err(CompileErrorView::TypeTooLarge)
            } else {
                lower_elements(*inner, elems, ptr, vars, ctx)
            },
            _ => Err(CompileErrorView::NotAnArray),
        },
        _ => Err(CompileErrorView::NotAnArray),
    }
}

/// The code that stores the elements of an initialiser, in order, in an
/// array of elements of type `inner`.
pub open spec fn lower_elements(
    inner: VarType,
    elems: Seq<ExprView>,
    ptr: Identifier,
    vars: Seq<BindingView>,
    ctx: TacContext,
) -> Result<CodeTac, CompileErrorView>
    decreases heights(elems), 0nat,
{
    if elems.len() == 0 {
        Ok(CodeTac { code: Seq::empty(), ctx })
    } else {
        match lower_elements(inner, elems.drop_last(), ptr, vars, ctx) {
            Err(err) => Err(err),
            Ok(front) => if elems.last() is ArrInitExpr {
                match fresh_temp(front.ctx, VarSize::Quad) {
                    Err(err) => Err(err),
                    Ok((p, c1)) => match lower_array_init(inner, elems.last(), p, vars, c1) {
                        Err(err) => Err(err),
                        Ok(r) => Ok(
                            CodeTac {
                                code: front.code.push(TacInstrView::Copy(p, TacVal::Var(ptr)))
                                    + r.code.push(advance_instr(ptr, type_bytes(inner))),
                                ctx: r.ctx,
                            },
                        ),
                    },
                }
            } else {
                match lower_expr(elems.last(), vars, None, None, front.ctx) {
                    Err(err) => Err(err),
                    Ok(r) => Ok(
                        CodeTac {
                            code: front.code + r.code.push(
                                TacInstrView::DerefStore(ptr, r.val),
                            ).push(advance_instr(ptr, type_bytes(inner))),
                            ctx: r.ctx,
                        },
                    ),
                }
            },
        }
    }
}

/// Once a prefix of the elements holds one that cannot be lowered, the
/// whole list fails with the same error.
pub proof fn lemma_lower_elements_fails(
    inner: VarType,
    elems: Seq<ExprView>,
    ptr: Identifier,
    vars: Seq<BindingView>,
    ctx: TacContext,
    n: int,
)
    requires
        0 <= n <= elems.len(),
        lower_elements(inner, elems.take(n), ptr, vars, ctx) is Err,
    ensures
        lower_elements(inner, elems, ptr, vars, ctx) == lower_elements(
            inner,
            elems.take(n),
            ptr,
            vars,
            ctx,
        ),
    decreases elems.len() - n,
{
    if n < elems.len() {
        assert(elems.take(n + 1).drop_last() =~= elems.take(n));
        lemma_lower_elements_fails(inner, elems, ptr, vars, ctx, n + 1);
    } else {
        assert(elems.take(n) =~= elems);
    }
}

/// Lowers an array initialiser: returns the instructions that store its
/// elements, in order, in the array that `ptr_to_arr` points at. The
/// pointer ends up behind the last element.
pub fn gen_arr_init_expr_tac(
    arr_type: &VarType,
    arr_init_expr: &Expr,
    ptr_to_arr: Identifier,
    code_env: &CodeEnv,
    ctx: &mut TacContext,
) -> (res: Result<Vec<TacInstr>, CompileError>)
    ensures
        match lower_array_init(*arr_type, arr_init_expr@, ptr_to_arr, code_env@.vars, *old(ctx)) {
            Ok(r) => res matches Ok(code) && tac_view(code@) == r.code && *final(ctx) == r.ctx,
            Err(e) => res matches Err(err) && err@ == e,
        },
    decreases expr_height(arr_init_expr@), 1nat,
{
    let exprs = match arr_init_expr {
        Expr::ArrInitExpr(x) => x,
        _ => {
            return Err(CompileError::NotAnArray);
        },
    };
    let inner_type = match arr_type {
        VarType::Arr(inner, _) => inner,
        _ => {
            return Err(CompileError::NotAnArray);
        },
    };
    let elem_bytes: i64 = match inner_type.num_bytes() {
        Some(b) => {
            if b > 0x7fff_ffff_ffff_ffff {
                return Err(CompileError::TypeTooLarge);
            }
            b as i64
        },
        None => {
            return Err(CompileError::TypeTooLarge);
        },
    };
    proof {
        lemma_expr_list_view(*exprs);
    }
    let ghost views = exprs_view(exprs@);
    let ghost vars = code_env@.vars;
    let ghost start = *ctx;
    let ghost inner = **inner_type;
    let mut result: Vec<TacInstr> = Vec::new();
    assert(tac_view(result@) =~= Seq::<TacInstrView>::empty());

    assert(lower_array_init(*arr_type, arr_init_expr@, ptr_to_arr, vars, start)
        == lower_elements(inner, views, ptr_to_arr, vars, start));
    let mut i: usize = 0;
    while i < exprs.len()
        invariant
            i <= exprs.len(),
            lower_array_init(*arr_type, arr_init_expr@, ptr_to_arr, vars, start) == lower_elements(
                inner,
                views,
                ptr_to_arr,
                vars,
                start,
            ),
            views == exprs_view(exprs@),
            vars == code_env@.vars,
            inner == **inner_type,
            start == *old(ctx),
            elem_bytes == type_bytes(inner),
            expr_height(arr_init_expr@) == 1 + heights(views),
            lower_elements(inner, views.take(i as int), ptr_to_arr, vars, start) == Ok::<
                CodeTac,
                CompileErrorView,
            >(CodeTac { code: tac_view(result@), ctx: *ctx }),
        decreases exprs.len() - i,
    {
        assert(views.take(i + 1).drop_last() =~= views.take(i as int));
        assert(views.take(i + 1).last() == exprs@[i as int]@);
        proof {
            lemma_heights_bound(views, i as int);
        }
        let nested = match &exprs[i] {
            Expr::ArrInitExpr(_) => true,
            _ => false,
        };
        let ghost front = tac_view(result@);
        if nested {
            let new_ptr = match ctx.get_new_temp_name(VarSize::Quad) {
                Ok(p) => p,
                Err(e) => {
                    proof {
                        assert(lower_elements(inner, views.take(i + 1), ptr_to_arr, vars, start)
                            == Err::<CodeTac, CompileErrorView>(e@));
                        lemma_lower_elements_fails(inner, views, ptr_to_arr, vars, start, i + 1);
                    }
                    return Err(e);
                },
            };
            emit(&mut result, TacInstr::Copy(new_ptr, TacVal::Var(ptr_to_arr)));
            let mut instrs = match gen_arr_init_expr_tac(
                inner_type,
                &exprs[i],
                new_ptr,
                code_env,
                ctx,
            ) {
                Ok(code) => code,
                Err(e) => {
                    proof {
                        assert(lower_elements(inner, views.take(i + 1), ptr_to_arr, vars, start)
                            == Err::<CodeTac, CompileErrorView>(e@));
                        lemma_lower_elements_fails(inner, views, ptr_to_arr, vars, start, i + 1);
                    }
                    return Err(e);
                },
            };
            emit(
                &mut instrs,
                TacInstr::BinOp(
                    ptr_to_arr,
                    TacVal::Var(ptr_to_arr),
                    TacVal::Lit(elem_bytes, VarSize::Quad),
                    BinOp::Plus,
                ),
            );
            emit_all(&mut result, instrs);
        } else {
            let (mut expr_instrs, tac_val) = match generate_expr_tac(
                &exprs[i],
                code_env,
                None,
                None,
                ctx,
            ) {
                Ok(pair) => pair,
                Err(e) => {
                    proof {
                        assert(lower_elements(inner, views.take(i + 1), ptr_to_arr, vars, start)
                            == Err::<CodeTac, CompileErrorView>(e@));
                        lemma_lower_elements_fails(inner, views, ptr_to_arr, vars, start, i + 1);
                    }
                    return Err(e);
                },
            };
            emit(&mut expr_instrs, TacInstr::DerefStore(ptr_to_arr, tac_val));
            emit(
                &mut expr_instrs,
                TacInstr::BinOp(
                    ptr_to_arr,
                    TacVal::Var(ptr_to_arr),
                    TacVal::Lit(elem_bytes, VarSize::Quad),
                    BinOp::Plus,
                ),
            );
            emit_all(&mut result, expr_instrs);
        }
        i += 1;
    }
    assert(views.take(i as int) =~= views);
    Ok(result)
}

} // verus!
