//! Lowering of expressions to three-address code.
//!
//! An expression becomes a list of instructions and a value: running the
//! instructions in order leaves the value of the expression in that value.
//! [`lower_expr`] says which instructions and which value; the functions
//! below compute them.

use vstd::prelude::*;
use crate::errors::{CompileError, CompileErrorView};
use crate::parser::expr_parser::{
    expr_height, exprs_view, heights, lemma_expr_list_view, lemma_heights_bound, BinOp, Expr,
    ExprView, UnOp,
};
use crate::tac::prefix_postfix_inc_dec::{
    gen_postfix_dec_tac, gen_postfix_inc_tac, gen_prefix_dec_tac, gen_prefix_inc_tac,
};
use crate::tac::labels::{label_text, make_label, LabelKind};
use crate::tac::{
    emit, emit_all, fresh_label, fresh_temp, lookup, resolve_variable_to_temp_name, tac_view,
    BindingView, CodeEnv, Identifier, TacContext, TacInstr, TacInstrView, TacVal,
};
use crate::types::{default_size, VarSize};

verus! {

/// The instructions that compute an expression, the value that then holds
/// its result, and the counters after lowering it.
pub struct ExprTac {
    pub code: Seq<TacInstrView>,
    pub val: TacVal,
    pub ctx: TacContext,
}

/// The instructions that compute a list of expressions in order, the
/// values that then hold their results, and the counters afterwards.
pub struct ArgsTac {
    pub code: Seq<TacInstrView>,
    pub vals: Seq<TacVal>,
    pub ctx: TacContext,
}

/// The wider of two widths that may be unknown; unknown if both are.
pub open spec fn bigger_size(s1: Option<VarSize>, s2: Option<VarSize>) -> Option<VarSize> {
    match (s1, s2) {
        (None, _) => s2,
        (_, None) => s1,
        (Some(a), Some(b)) => if a.rank() >= b.rank() {
            s1
        } else {
            s2
        },
    }
}

/// The first width if it is known, else the second.
pub open spec fn size_or(s: Option<VarSize>, other: Option<VarSize>) -> Option<VarSize> {
    match s {
        Some(_) => s,
        None => other,
    }
}

/// The width if it is known, else the default width.
pub open spec fn size_or_default(s: Option<VarSize>) -> VarSize {
    match s {
        Some(size) => size,
        None => default_size(),
    }
}

/// The width of the value of an expression: that of the variable for a
/// variable and for the operations that change one, the wider of the
/// operands for a binary operation and of the branches for a ternary, the
/// default for a call, and unknown for a literal. It is an error if a
/// variable that decides the width is not declared.
pub open spec fn expr_size(e: ExprView, vars: Seq<BindingView>) -> Result<
    Option<VarSize>,
    CompileErrorView,
>
    decreases e,
{
    match e {
        ExprView::IntLiteral(_) => Ok(None),
        ExprView::Var(n) => var_size(vars, n),
        ExprView::Assign(n, _) => var_size(vars, n),
        ExprView::UnOp(_, inner) => expr_size(*inner, vars),
        ExprView::BinOp(_, a, b) => match expr_size(*a, vars) {
            Err(err) => Err(err),
            Ok(sa) => match expr_size(*b, vars) {
                Err(err) => Err(err),
                Ok(sb) => Ok(bigger_size(sa, sb)),
            },
        },
        ExprView::Ternary(_, x, y) => match expr_size(*x, vars) {
            Err(err) => Err(err),
            Ok(sx) => match expr_size(*y, vars) {
                Err(err) => Err(err),
                Ok(sy) => Ok(bigger_size(sx, sy)),
            },
        },
        ExprView::FunctionCall(_, _) => Ok(Some(default_size())),
        ExprView::PostfixDec(n) => var_size(vars, n),
        ExprView::PostfixInc(n) => var_size(vars, n),
        ExprView::PrefixDec(n) => var_size(vars, n),
        ExprView::PrefixInc(n) => var_size(vars, n),
        ExprView::ArrInitExpr(_) => Ok(None),
    }
}

/// The width of a declared variable.
pub open spec fn var_size(vars: Seq<BindingView>, name: Seq<char>) -> Result<
    Option<VarSize>,
    CompileErrorView,
> {
    match lookup(vars, name) {
        Ok(id) => Ok(Some(id.1)),
        Err(err) => Err(err),
    }
}

/// The wider of the widths of two expressions.
pub open spec fn pair_size(a: ExprView, b: ExprView, vars: Seq<BindingView>) -> Result<
    Option<VarSize>,
    CompileErrorView,
> {
    match expr_size(a, vars) {
        Err(err) => Err(err),
        Ok(sa) => match expr_size(b, vars) {
            Err(err) => Err(err),
            Ok(sb) => Ok(bigger_size(sa, sb)),
        },
    }
}

/// The temporary that receives a result: the target if there is one, else
/// a fresh temporary of the given width.
pub open spec fn pick_target(target: Option<Identifier>, size: VarSize, ctx: TacContext) -> Result<
    (Identifier, TacContext),
    CompileErrorView,
> {
    match target {
        Some(t) => Ok((t, ctx)),
        None => fresh_temp(ctx, size),
    }
}

/// A value that is already at hand, delivered to the target if there is
/// one: with a target the value is copied into it.
pub open spec fn deliver(
    code: Seq<TacInstrView>,
    val: TacVal,
    target: Option<Identifier>,
    ctx: TacContext,
) -> ExprTac {
    match target {
        Some(t) => ExprTac { code: code.push(TacInstrView::Copy(t, val)), val: TacVal::Var(t), ctx },
        None => ExprTac { code, val, ctx },
    }
}

/// The operator that an increment or decrement applies to its variable.
pub open spec fn step_instr(id: Identifier, op: BinOp) -> TacInstrView {
    TacInstrView::BinOp(id, TacVal::Var(id), TacVal::Lit(1, id.1), op)
}

/// The code of `a && b` or `a || b`, given the codes of `a` and `b`. The
/// right operand is skipped when the left one decides the result.
pub open spec fn short_circuit_code(
    op: BinOp,
    t: Identifier,
    k: u64,
    ra: ExprTac,
    rb: ExprTac,
) -> Seq<TacInstrView> {
    if op == BinOp::LogicalAnd {
        ra.code.push(TacInstrView::JmpZero(label_text(LabelKind::AndFalse, k), ra.val)) + rb.code
            + seq![
            TacInstrView::BinOp(t, rb.val, TacVal::Lit(0, t.1), BinOp::NotEquals),
            TacInstrView::Jmp(label_text(LabelKind::AndEnd, k)),
            TacInstrView::Label(label_text(LabelKind::AndFalse, k)),
            TacInstrView::Copy(t, TacVal::Lit(0, t.1)),
            TacInstrView::Label(label_text(LabelKind::AndEnd, k)),
        ]
    } else {
        ra.code.push(TacInstrView::JmpNotZero(label_text(LabelKind::OrTrue, k), ra.val)) + rb.code
            + seq![
            TacInstrView::BinOp(t, rb.val, TacVal::Lit(0, t.1), BinOp::NotEquals),
            TacInstrView::Jmp(label_text(LabelKind::OrEnd, k)),
            TacInstrView::Label(label_text(LabelKind::OrTrue, k)),
            TacInstrView::Copy(t, TacVal::Lit(1, t.1)),
            TacInstrView::Label(label_text(LabelKind::OrEnd, k)),
        ]
    }
}

/// The code of `c ? x : y`, given the codes of the three parts.
pub open spec fn ternary_code(k: u64, rc: ExprTac, rx: ExprTac, ry: ExprTac) -> Seq<
    TacInstrView,
> {
    rc.code.push(TacInstrView::JmpZero(label_text(LabelKind::TernaryFalse, k), rc.val)) + rx.code
        + seq![
        TacInstrView::Jmp(label_text(LabelKind::TernaryEnd, k)),
        TacInstrView::Label(label_text(LabelKind::TernaryFalse, k)),
    ] + ry.code.push(TacInstrView::Label(label_text(LabelKind::TernaryEnd, k)))
}

/// Whether the operator is one of the two that skip their right operand.
pub open spec fn is_short_circuit(op: BinOp) -> bool {
    op == BinOp::LogicalAnd || op == BinOp::LogicalOr
}

/// The code of a literal: nothing without a target, a copy with one.
pub open spec fn lower_literal(
    v: i32,
    target: Option<Identifier>,
    hint: Option<VarSize>,
    ctx: TacContext,
) -> ExprTac {
    match target {
        Some(t) => deliver(Seq::empty(), TacVal::Lit(v as i64, t.1), target, ctx),
        None => ExprTac {
            code: Seq::empty(),
            val: TacVal::Lit(v as i64, size_or_default(hint)),
            ctx,
        },
    }
}

/// The code of a variable: nothing without a target, a copy with one.
pub open spec fn lower_var(
    n: Seq<char>,
    vars: Seq<BindingView>,
    target: Option<Identifier>,
    ctx: TacContext,
) -> Result<ExprTac, CompileErrorView> {
    match lookup(vars, n) {
        Err(err) => Err(err),
        Ok(id) => Ok(deliver(Seq::empty(), TacVal::Var(id), target, ctx)),
    }
}

/// The three-address code of an expression.
///
/// `vars` are the variables in scope. With a `target` the value is the
/// target and the last write of the code lands in it; without one the
/// value is whatever holds the result, a fresh temporary if one is needed.
/// `hint` is the width that a literal takes when nothing else decides it.
pub open spec fn lower_expr(
    e: ExprView,
    vars: Seq<BindingView>,
    target: Option<Identifier>,
    hint: Option<VarSize>,
    ctx: TacContext,
) -> Result<ExprTac, CompileErrorView>
    decreases expr_height(e), 2nat,
{
    match e {
        ExprView::IntLiteral(v) => Ok(lower_literal(v, target, hint, ctx)),
        ExprView::Var(n) => lower_var(n, vars, target, ctx),
        ExprView::Assign(n, rhs) => lower_assign(n, *rhs, vars, target, ctx),
        ExprView::UnOp(op, inner) => lower_unop(op, *inner, vars, target, hint, ctx),
        ExprView::BinOp(op, a, b) => lower_binop(op, *a, *b, vars, target, hint, ctx),
        ExprView::Ternary(c, x, y) => lower_ternary(*c, *x, *y, vars, target, hint, ctx),
        ExprView::FunctionCall(f, args) => lower_call(f, args, vars, target, ctx),
        ExprView::PostfixInc(n) => lower_postfix(n, BinOp::Plus, vars, target, ctx),
        ExprView::PostfixDec(n) => lower_postfix(n, BinOp::Minus, vars, target, ctx),
        ExprView::PrefixInc(n) => lower_prefix(n, BinOp::Plus, vars, target, ctx),
        ExprView::PrefixDec(n) => lower_prefix(n, BinOp::Minus, vars, target, ctx),
        ExprView::ArrInitExpr(_) => Err(CompileErrorView::MisplacedArrayInit),
    }
}

/// The code of `n = rhs`: the right side is written to the temporary of
/// the variable, and the value is the variable.
pub open spec fn lower_assign(
    n: Seq<char>,
    rhs: ExprView,
    vars: Seq<BindingView>,
    target: Option<Identifier>,
    ctx: TacContext,
) -> Result<ExprTac, CompileErrorView>
    decreases 1 + expr_height(rhs), 0nat,
{
    match lookup(vars, n) {
        Err(err) => Err(err),
        Ok(id) => match lower_expr(rhs, vars, Some(id), Some(id.1), ctx) {
            Err(err) => Err(err),
            Ok(r) => Ok(deliver(r.code, TacVal::Var(id), target, r.ctx)),
        },
    }
}

/// The code of `op inner`: the operand, then the operation into the
/// target or a fresh temporary.
pub open spec fn lower_unop(
    op: UnOp,
    inner: ExprView,
    vars: Seq<BindingView>,
    target: Option<Identifier>,
    hint: Option<VarSize>,
    ctx: TacContext,
) -> Result<ExprTac, CompileErrorView>
    decreases 1 + expr_height(inner), 0nat,
{
    match expr_size(inner, vars) {
        Err(err) => Err(err),
        Ok(size) => match pick_target(target, size_or_default(size_or(size, hint)), ctx) {
            Err(err) => Err(err),
            Ok((t, c1)) => match lower_expr(inner, vars, None, hint, c1) {
                Err(err) => Err(err),
                Ok(r) => Ok(
                    ExprTac {
                        code: r.code.push(TacInstrView::UnOp(t, r.val, op)),
                        val: TacVal::Var(t),
                        ctx: r.ctx,
                    },
                ),
            },
        },
    }
}

/// The code of `a op b`: the left operand, then the right one, then the
/// operation into the target or a fresh temporary. A literal operand takes
/// the width of the other operand. The two logical operators go by
/// [`lower_short_circuit`].
pub open spec fn lower_binop(
    op: BinOp,
    a: ExprView,
    b: ExprView,
    vars: Seq<BindingView>,
    target: Option<Identifier>,
    hint: Option<VarSize>,
    ctx: TacContext,
) -> Result<ExprTac, CompileErrorView>
    decreases 1 + expr_height(a) + expr_height(b), 1nat,
{
    if is_short_circuit(op) {
        lower_short_circuit(op, a, b, vars, target, hint, ctx)
    } else {
        match pair_size(a, b, vars) {
            Err(err) => Err(err),
            Ok(size) => match lower_expr(a, vars, None, size_or(size, hint), ctx) {
                Err(err) => Err(err),
                Ok(ra) => match lower_expr(b, vars, None, size_or(size, hint), ra.ctx) {
                    Err(err) => Err(err),
                    Ok(rb) => match pick_target(
                        target,
                        size_or_default(size_or(size, hint)),
                        rb.ctx,
                    ) {
                        Err(err) => Err(err),
                        Ok((t, c)) => Ok(
                            ExprTac {
                                code: (ra.code + rb.code).push(
                                    TacInstrView::BinOp(t, ra.val, rb.val, op),
                                ),
                                val: TacVal::Var(t),
                                ctx: c,
                            },
                        ),
                    },
                },
            },
        }
    }
}

/// The code of `a && b` and of `a || b`: the left operand, a jump over the
/// right one if the left one decides, and 0 or 1 in the target or a fresh
/// temporary.
pub open spec fn lower_short_circuit(
    op: BinOp,
    a: ExprView,
    b: ExprView,
    vars: Seq<BindingView>,
    target: Option<Identifier>,
    hint: Option<VarSize>,
    ctx: TacContext,
) -> Result<ExprTac, CompileErrorView>
    decreases 1 + expr_height(a) + expr_height(b), 0nat,
{
    match pair_size(a, b, vars) {
        Err(err) => Err(err),
        Ok(size) => match pick_target(target, size_or_default(size_or(size, hint)), ctx) {
            Err(err) => Err(err),
            Ok((t, c1)) => match fresh_label(c1) {
                Err(err) => Err(err),
                Ok((k, c2)) => match lower_expr(a, vars, None, None, c2) {
                    Err(err) => Err(err),
                    Ok(ra) => match lower_expr(b, vars, None, None, ra.ctx) {
                        Err(err) => Err(err),
                        Ok(rb) => Ok(
                            ExprTac {
                                code: short_circuit_code(op, t, k, ra, rb),
                                val: TacVal::Var(t),
                                ctx: rb.ctx,
                            },
                        ),
                    },
                },
            },
        },
    }
}

/// The code of `c ? x : y`: the condition, then one of the two branches,
/// each of which writes the target or the same fresh temporary.
pub open spec fn lower_ternary(
    c: ExprView,
    x: ExprView,
    y: ExprView,
    vars: Seq<BindingView>,
    target: Option<Identifier>,
    hint: Option<VarSize>,
    ctx: TacContext,
) -> Result<ExprTac, CompileErrorView>
    decreases 1 + expr_height(c) + expr_height(x) + expr_height(y), 0nat,
{
    match pair_size(x, y, vars) {
        Err(err) => Err(err),
        Ok(size) => match pick_target(target, size_or_default(size_or(size, hint)), ctx) {
            Err(err) => Err(err),
            Ok((t, c1)) => match fresh_label(c1) {
                Err(err) => Err(err),
                Ok((k, c2)) => match lower_expr(c, vars, None, None, c2) {
                    Err(err) => Err(err),
                    Ok(rc) => match lower_expr(x, vars, Some(t), Some(t.1), rc.ctx) {
                        Err(err) => Err(err),
                        Ok(rx) => match lower_expr(y, vars, Some(t), Some(t.1), rx.ctx) {
                            Err(err) => Err(err),
                            Ok(ry) => Ok(
                                ExprTac {
                                    code: ternary_code(k, rc, rx, ry),
                                    val: TacVal::Var(t),
                                    ctx: ry.ctx,
                                },
                            ),
                        },
                    },
                },
            },
        },
    }
}

/// The code of a call: the arguments from left to right, then the call,
/// which stores what the function returns in the target or a fresh
/// temporary.
pub open spec fn lower_call(
    f: Seq<char>,
    args: Seq<ExprView>,
    vars: Seq<BindingView>,
    target: Option<Identifier>,
    ctx: TacContext,
) -> Result<ExprTac, CompileErrorView>
    decreases 1 + heights(args), 0nat,
{
    match pick_target(target, default_size(), ctx) {
        Err(err) => Err(err),
        Ok((t, c1)) => match lower_args(args, vars, c1) {
            Err(err) => Err(err),
            Ok(r) => Ok(
                ExprTac {
                    code: r.code.push(TacInstrView::Call(f, r.vals, Some(t))),
                    val: TacVal::Var(t),
                    ctx: r.ctx,
                },
            ),
        },
    }
}

/// The code of `n++` and `n--`: the value of the variable is kept in a
/// fresh temporary, then the variable changes. The value of the
/// expression is what was kept; with a target it is copied there last, so
/// that the target holds the value from before the change.
pub open spec fn lower_postfix(
    n: Seq<char>,
    op: BinOp,
    vars: Seq<BindingView>,
    target: Option<Identifier>,
    ctx: TacContext,
) -> Result<ExprTac, CompileErrorView> {
    match lookup(vars, n) {
        Err(err) => Err(err),
        Ok(id) => match fresh_temp(ctx, id.1) {
            Err(err) => Err(err),
            Ok((kept, c)) => Ok(
                deliver(
                    seq![TacInstrView::Copy(kept, TacVal::Var(id)), step_instr(id, op)],
                    TacVal::Var(kept),
                    target,
                    c,
                ),
            ),
        },
    }
}

/// The code of `++n` and `--n`: the variable changes, and the value is
/// that of the variable afterwards. With a target the value is copied
/// there, unless the target is the variable itself, which holds it
/// already.
pub open spec fn lower_prefix(
    n: Seq<char>,
    op: BinOp,
    vars: Seq<BindingView>,
    target: Option<Identifier>,
    ctx: TacContext,
) -> Result<ExprTac, CompileErrorView> {
    match lookup(vars, n) {
        Err(err) => Err(err),
        Ok(id) => if target == Some(id) {
            Ok(ExprTac { code: seq![step_instr(id, op)], val: TacVal::Var(id), ctx })
        } else {
            Ok(deliver(seq![step_instr(id, op)], TacVal::Var(id), target, ctx))
        },
    }
}

/// The code that computes the expressions of a list from left to right,
/// each without a target, and the values that hold their results.
pub open spec fn lower_args(args: Seq<ExprView>, vars: Seq<BindingView>, ctx: TacContext) -> Result<
    ArgsTac,
    CompileErrorView,
>
    decreases heights(args), 3nat,
{
    if args.len() == 0 {
        Ok(ArgsTac { code: Seq::empty(), vals: Seq::empty(), ctx })
    } else {
        match lower_args(args.drop_last(), vars, ctx) {
            Err(err) => Err(err),
            Ok(front) => match lower_expr(args.last(), vars, None, None, front.ctx) {
                Err(err) => Err(err),
                Ok(r) => Ok(
                    ArgsTac {
                        code: front.code + r.code,
                        vals: front.vals.push(r.val),
                        ctx: r.ctx,
                    },
                ),
            },
        }
    }
}


/// What a lowering function returns, and the counters it leaves, are as
/// the model says: the same code, value and counters, or the same error.
pub open spec fn lowered_as(
    res: Result<(Vec<TacInstr>, TacVal), CompileError>,
    ctx_after: TacContext,
    model: Result<ExprTac, CompileErrorView>,
) -> bool {
    match model {
        Ok(r) => res matches Ok(pair) && tac_view(pair.0@) == r.code && pair.1 == r.val
            && ctx_after == r.ctx,
        Err(e) => res matches Err(err) && err@ == e,
    }
}

/// Once a prefix of the list holds an expression that cannot be lowered,
/// the whole list fails with the same error.
pub proof fn lemma_lower_args_fails(
    args: Seq<ExprView>,
    vars: Seq<BindingView>,
    ctx: TacContext,
    n: int,
)
    requires
        0 <= n <= args.len(),
        lower_args(args.take(n), vars, ctx) is Err,
    ensures
        lower_args(args, vars, ctx) == lower_args(args.take(n), vars, ctx),
    decreases args.len() - n,
{
    if n < args.len() {
        assert(args.take(n + 1).drop_last() =~= args.take(n));
        lemma_lower_args_fails(args, vars, ctx, n + 1);
    } else {
        assert(args.take(n) =~= args);
    }
}

/// The wider of two widths that may be unknown.
pub fn get_bigger_size(s1: Option<VarSize>, s2: Option<VarSize>) -> (s: Option<VarSize>)
    ensures
        s == bigger_size(s1, s2),
        s is None <==> s1 is None && s2 is None,
        forall|a: VarSize| s1 == Some(a) || s2 == Some(a) ==> s is Some && s->0.rank() >= a.rank(),
        s == s1 || s == s2,
{
    match (s1, s2) {
        (None, _) => s2,
        (_, None) => s1,
        (Some(a), Some(b)) => {
            let a_wider = match (a, b) {
                (VarSize::Quad, _) => true,
                (_, VarSize::Quad) => false,
                (VarSize::Dword, _) => true,
                (_, VarSize::Dword) => false,
                (VarSize::Word, _) => true,
                (_, VarSize::Word) => false,
                _ => true,
            };
            if a_wider {
                s1
            } else {
                s2
            }
        },
    }
}

fn size_of_variable(name: &String, code_env: &CodeEnv) -> (res: Result<
    Option<VarSize>,
    CompileError,
>)
    ensures
        match var_size(code_env@.vars, name@) {
            Ok(s) => res == Ok::<Option<VarSize>, CompileError>(s),
            Err(e) => res matches Err(err) && err@ == e,
        },
{
    match resolve_variable_to_temp_name(name, code_env) {
        Ok(id) => Ok(Some(id.1)),
        Err(e) => Err(e),
    }
}

/// The width of the value of an expression, if anything decides it.
pub fn get_expr_size(expr: &Expr, code_env: &CodeEnv) -> (res: Result<
    Option<VarSize>,
    CompileError,
>)
    ensures
        match expr_size(expr@, code_env@.vars) {
            Ok(s) => res == Ok::<Option<VarSize>, CompileError>(s),
            Err(e) => res matches Err(err) && err@ == e,
        },
    decreases expr,
{
    match expr {
        Expr::IntLiteral(_) => Ok(None),
        Expr::Var(name) => size_of_variable(name, code_env),
        Expr::Assign(name, _) => size_of_variable(name, code_env),
        Expr::UnOp(_, inner_expr) => get_expr_size(inner_expr, code_env),
        Expr::BinOp(_, inner_expr_1, inner_expr_2) => {
            let s1 = match get_expr_size(inner_expr_1, code_env) {
                Ok(s) => s,
                Err(e) => {
                    return Err(e);
                },
            };
            let s2 = match get_expr_size(inner_expr_2, code_env) {
                Ok(s) => s,
                Err(e) => {
                    return Err(e);
                },
            };
            Ok(get_bigger_size(s1, s2))
        },
        Expr::Ternary(_, inner_expr_1, inner_expr_2) => {
            let s1 = match get_expr_size(inner_expr_1, code_env) {
                Ok(s) => s,
                Err(e) => {
                    return Err(e);
                },
            };
            let s2 = match get_expr_size(inner_expr_2, code_env) {
                Ok(s) => s,
                Err(e) => {
                    return Err(e);
                },
            };
            Ok(get_bigger_size(s1, s2))
        },
        Expr::FunctionCall(_, _) => Ok(Some(VarSize::default())),
        Expr::PostfixDec(name) => size_of_variable(name, code_env),
        Expr::PostfixInc(name) => size_of_variable(name, code_env),
        Expr::PrefixDec(name) => size_of_variable(name, code_env),
        Expr::PrefixInc(name) => size_of_variable(name, code_env),
        Expr::ArrInitExpr(_) => Ok(None),
    }
}

fn get_pair_size(expr1: &Expr, expr2: &Expr, code_env: &CodeEnv) -> (res: Result<
    Option<VarSize>,
    CompileError,
>)
    ensures
        match pair_size(expr1@, expr2@, code_env@.vars) {
            Ok(s) => res == Ok::<Option<VarSize>, CompileError>(s),
            Err(e) => res matches Err(err) && err@ == e,
        },
{
    let s1 = match get_expr_size(expr1, code_env) {
        Ok(s) => s,
        Err(e) => {
            return Err(e);
        },
    };
    let s2 = match get_expr_size(expr2, code_env) {
        Ok(s) => s,
        Err(e) => {
            return Err(e);
        },
    };
    Ok(get_bigger_size(s1, s2))
}

fn or_size(s: Option<VarSize>, other: Option<VarSize>) -> (r: Option<VarSize>)
    ensures
        r == size_or(s, other),
{
    match s {
        Some(_) => s,
        None => other,
    }
}

fn or_default(s: Option<VarSize>) -> (r: VarSize)
    ensures
        r == size_or_default(s),
{
    match s {
        Some(size) => size,
        None => VarSize::default(),
    }
}

/// The temporary that receives a result: the target if there is one, else
/// a fresh temporary of the given width.
pub fn pick_destination(target: Option<Identifier>, size: VarSize, ctx: &mut TacContext) -> (res:
    Result<Identifier, CompileError>)
    ensures
        match pick_target(target, size, *old(ctx)) {
            Ok(pair) => res == Ok::<Identifier, CompileError>(pair.0) && *final(ctx) == pair.1,
            Err(e) => res matches Err(err) && err@ == e,
        },
{
    match target {
        Some(t) => Ok(t),
        None => ctx.get_new_temp_name(size),
    }
}

/// Delivers a value that is at hand to the target, if there is one.
pub fn deliver_value(code: Vec<TacInstr>, val: TacVal, target: Option<Identifier>) -> (res: (
    Vec<TacInstr>,
    TacVal,
))
    ensures
        forall|ctx: TacContext|
            tac_view(res.0@) == (#[trigger] deliver(tac_view(code@), val, target, ctx)).code
                && res.1 == deliver(tac_view(code@), val, target, ctx).val,
{
    let mut code = code;
    match target {
        Some(t) => {
            emit(&mut code, TacInstr::Copy(t, val));
            (code, TacVal::Var(t))
        },
        None => (code, val),
    }
}

fn gen_var_tac(var_name: &String, code_env: &CodeEnv, target_temp_name: Option<Identifier>) -> (res:
    Result<(Vec<TacInstr>, TacVal), CompileError>)
    ensures
        forall|ctx: TacContext|
            lowered_as(
                res,
                ctx,
                #[trigger] lower_var(var_name@, code_env@.vars, target_temp_name, ctx),
            ),
{
    let id = match resolve_variable_to_temp_name(var_name, code_env) {
        Ok(id) => id,
        Err(e) => {
            return Err(e);
        },
    };
    let code: Vec<TacInstr> = Vec::new();
    assert(tac_view(code@) =~= Seq::<TacInstrView>::empty());
    Ok(deliver_value(code, TacVal::Var(id), target_temp_name))
}

fn gen_literal_tac(v: i32, target_temp_name: Option<Identifier>, suggested_size: Option<VarSize>) -> (res:
    Result<(Vec<TacInstr>, TacVal), CompileError>)
    ensures
        forall|ctx: TacContext|
            lowered_as(
                res,
                ctx,
                Ok(#[trigger] lower_literal(v, target_temp_name, suggested_size, ctx)),
            ),
{
    let code: Vec<TacInstr> = Vec::new();
    assert(tac_view(code@) =~= Seq::<TacInstrView>::empty());
    match target_temp_name {
        Some(ident) => Ok(deliver_value(code, TacVal::Lit(v as i64, ident.1), target_temp_name)),
        None => Ok((code, TacVal::Lit(v as i64, or_default(suggested_size)))),
    }
}

fn gen_assign_tac(
    var_name: &String,
    rhs: &Expr,
    code_env: &CodeEnv,
    target_temp_name: Option<Identifier>,
    ctx: &mut TacContext,
) -> (res: Result<(Vec<TacInstr>, TacVal), CompileError>)
    ensures
        lowered_as(
            res,
            *final(ctx),
            lower_assign(var_name@, rhs@, code_env@.vars, target_temp_name, *old(ctx)),
        ),
    decreases 1 + expr_height(rhs@), 0nat,
{
    let temp_name_of_assignee = match resolve_variable_to_temp_name(var_name, code_env) {
        Ok(id) => id,
        Err(e) => {
            return Err(e);
        },
    };
    let (result, _) = match generate_expr_tac(
        rhs,
        code_env,
        Some(temp_name_of_assignee),
        Some(temp_name_of_assignee.1),
        ctx,
    ) {
        Ok(pair) => pair,
        Err(e) => {
            return Err(e);
        },
    };
    Ok(deliver_value(result, TacVal::Var(temp_name_of_assignee), target_temp_name))
}

fn gen_unop_tac(
    op: UnOp,
    inner_expr: &Expr,
    code_env: &CodeEnv,
    target_temp_name: Option<Identifier>,
    suggested_size: Option<VarSize>,
    ctx: &mut TacContext,
) -> (res: Result<(Vec<TacInstr>, TacVal), CompileError>)
    ensures
        lowered_as(
            res,
            *final(ctx),
            lower_unop(
                op,
                inner_expr@,
                code_env@.vars,
                target_temp_name,
                suggested_size,
                *old(ctx),
            ),
        ),
    decreases 1 + expr_height(inner_expr@), 0nat,
{
    let size = match get_expr_size(inner_expr, code_env) {
        Ok(s) => s,
        Err(e) => {
            return Err(e);
        },
    };
    let final_temp_name = match pick_destination(
        target_temp_name,
        or_default(or_size(size, suggested_size)),
        ctx,
    ) {
        Ok(t) => t,
        Err(e) => {
            return Err(e);
        },
    };
    let (mut result, inner_val) = match generate_expr_tac(
        inner_expr,
        code_env,
        None,
        suggested_size,
        ctx,
    ) {
        Ok(pair) => pair,
        Err(e) => {
            return Err(e);
        },
    };
    emit(&mut result, TacInstr::UnOp(final_temp_name, inner_val, op));
    Ok((result, TacVal::Var(final_temp_name)))
}

/// Lowers an expression: returns the instructions that compute it and the
/// value that then holds its result. With a target the result is written
/// to the target; without one a fresh temporary is made where one is
/// needed. Fails if the expression names a variable that is not declared.
pub fn generate_expr_tac(
    expr: &Expr,
    code_env: &CodeEnv,
    target_temp_name: Option<Identifier>,
    suggested_size: Option<VarSize>,
    ctx: &mut TacContext,
) -> (res: Result<(Vec<TacInstr>, TacVal), CompileError>)
    ensures
        lowered_as(
            res,
            *final(ctx),
            lower_expr(expr@, code_env@.vars, target_temp_name, suggested_size, *old(ctx)),
        ),
    decreases expr_height(expr@), 2nat,
{
    match expr {
        Expr::Var(var_name) => gen_var_tac(var_name, code_env, target_temp_name),
        Expr::Assign(var_name, rhs) => gen_assign_tac(
            var_name,
            rhs,
            code_env,
            target_temp_name,
            ctx,
        ),
        Expr::IntLiteral(v) => gen_literal_tac(*v, target_temp_name, suggested_size),
        Expr::UnOp(op, inner_expr) => gen_unop_tac(
            *op,
            inner_expr,
            code_env,
            target_temp_name,
            suggested_size,
            ctx,
        ),
        Expr::BinOp(op, expr1, expr2) => generate_binop_tac(
            *op,
            expr1,
            expr2,
            code_env,
            target_temp_name,
            suggested_size,
            ctx,
        ),
        Expr::Ternary(decision_expr, expr1, expr2) => generate_ternary_tac(
            decision_expr,
            expr1,
            expr2,
            code_env,
            target_temp_name,
            suggested_size,
            ctx,
        ),
        Expr::PostfixInc(var) => gen_postfix_inc_tac(var, code_env, target_temp_name, ctx),
        Expr::PostfixDec(var) => gen_postfix_dec_tac(var, code_env, target_temp_name, ctx),
        Expr::PrefixInc(var) => gen_prefix_inc_tac(var, code_env, target_temp_name, ctx),
        Expr::PrefixDec(var) => gen_prefix_dec_tac(var, code_env, target_temp_name, ctx),
        Expr::FunctionCall(func_ident, args) => {
            proof {
                lemma_expr_list_view(*args);
                assert(expr@ == ExprView::FunctionCall(func_ident@, exprs_view(args@)));
                assert(expr_height(expr@) == 1 + heights(exprs_view(args@)));
            }
            gen_function_call_tac(func_ident, args, code_env, target_temp_name, ctx)
        },
        Expr::ArrInitExpr(_) => Err(CompileError::MisplacedArrayInit),
    }
}

/// Lowers `expr1 op expr2`. The left operand is computed before the right
/// one; the two logical operators skip the right one when the left one
/// decides.
pub fn generate_binop_tac(
    op: BinOp,
    expr1: &Expr,
    expr2: &Expr,
    code_env: &CodeEnv,
    target_temp_name: Option<Identifier>,
    suggested_size: Option<VarSize>,
    ctx: &mut TacContext,
) -> (res: Result<(Vec<TacInstr>, TacVal), CompileError>)
    ensures
        lowered_as(
            res,
            *final(ctx),
            lower_binop(
                op,
                expr1@,
                expr2@,
                code_env@.vars,
                target_temp_name,
                suggested_size,
                *old(ctx),
            ),
        ),
    decreases 1 + expr_height(expr1@) + expr_height(expr2@), 1nat,
{
    let short = match op {
        BinOp::LogicalAnd => true,
        BinOp::LogicalOr => true,
        _ => false,
    };
    if short {
        return generate_short_circuiting_tac(
            op,
            expr1,
            expr2,
            code_env,
            target_temp_name,
            suggested_size,
            ctx,
        );
    }
    let size = match get_pair_size(expr1, expr2, code_env) {
        Ok(s) => s,
        Err(e) => {
            return Err(e);
        },
    };
    let operand_size = or_size(size, suggested_size);
    let (mut result, expr_1_val) = match generate_expr_tac(
        expr1,
        code_env,
        None,
        operand_size,
        ctx,
    ) {
        Ok(pair) => pair,
        Err(e) => {
            return Err(e);
        },
    };
    let (result2, expr_2_val) = match generate_expr_tac(expr2, code_env, None, operand_size, ctx) {
        Ok(pair) => pair,
        Err(e) => {
            return Err(e);
        },
    };
    let final_temp_name = match pick_destination(target_temp_name, or_default(operand_size), ctx) {
        Ok(t) => t,
        Err(e) => {
            return Err(e);
        },
    };
    emit_all(&mut result, result2);
    emit(&mut result, TacInstr::BinOp(final_temp_name, expr_1_val, expr_2_val, op));
    Ok((result, TacVal::Var(final_temp_name)))
}

/// Lowers `expr1 && expr2` and `expr1 || expr2`: the right operand is
/// jumped over when the left one is zero (for `&&`) or not zero (for `||`),
/// and the result is 0 or 1.
pub fn generate_short_circuiting_tac(
    op: BinOp,
    expr1: &Expr,
    expr2: &Expr,
    code_env: &CodeEnv,
    target_temp_name: Option<Identifier>,
    suggested_size: Option<VarSize>,
    ctx: &mut TacContext,
) -> (res: Result<(Vec<TacInstr>, TacVal), CompileError>)
    requires
        is_short_circuit(op),
    ensures
        lowered_as(
            res,
            *final(ctx),
            lower_short_circuit(
                op,
                expr1@,
                expr2@,
                code_env@.vars,
                target_temp_name,
                suggested_size,
                *old(ctx),
            ),
        ),
    decreases 1 + expr_height(expr1@) + expr_height(expr2@), 0nat,
{
    let size = match get_pair_size(expr1, expr2, code_env) {
        Ok(s) => s,
        Err(e) => {
            return Err(e);
        },
    };
    let final_temp_name = match pick_destination(
        target_temp_name,
        or_default(or_size(size, suggested_size)),
        ctx,
    ) {
        Ok(t) => t,
        Err(e) => {
            return Err(e);
        },
    };
    let label_num = match ctx.get_new_label_number() {
        Ok(n) => n,
        Err(e) => {
            return Err(e);
        },
    };
    let is_and = match op {
        BinOp::LogicalAnd => true,
        _ => false,
    };
    let (mut result, lhs_val) = match generate_expr_tac(expr1, code_env, None, None, ctx) {
        Ok(pair) => pair,
        Err(e) => {
            return Err(e);
        },
    };
    let ghost ra = ExprTac { code: tac_view(result@), val: lhs_val, ctx: *ctx };
    if is_and {
        emit(&mut result, TacInstr::JmpZero(make_label(LabelKind::AndFalse, label_num), lhs_val));
    } else {
        emit(&mut result, TacInstr::JmpNotZero(make_label(LabelKind::OrTrue, label_num), lhs_val));
    }
    let (res_rhs, rhs_val) = match generate_expr_tac(expr2, code_env, None, None, ctx) {
        Ok(pair) => pair,
        Err(e) => {
            return Err(e);
        },
    };
    let ghost rb = ExprTac { code: tac_view(res_rhs@), val: rhs_val, ctx: *ctx };
    emit_all(&mut result, res_rhs);
    let mut tail: Vec<TacInstr> = Vec::new();
    emit(
        &mut tail,
        TacInstr::BinOp(
            final_temp_name,
            rhs_val,
            TacVal::Lit(0, final_temp_name.1),
            BinOp::NotEquals,
        ),
    );
    if is_and {
        emit(&mut tail, TacInstr::Jmp(make_label(LabelKind::AndEnd, label_num)));
        emit(&mut tail, TacInstr::Label(make_label(LabelKind::AndFalse, label_num)));
        emit(&mut tail, TacInstr::Copy(final_temp_name, TacVal::Lit(0, final_temp_name.1)));
        emit(&mut tail, TacInstr::Label(make_label(LabelKind::AndEnd, label_num)));
        assert(tac_view(tail@) =~= seq![
            TacInstrView::BinOp(
                final_temp_name,
                rhs_val,
                TacVal::Lit(0, final_temp_name.1),
                BinOp::NotEquals,
            ),
            TacInstrView::Jmp(label_text(LabelKind::AndEnd, label_num)),
            TacInstrView::Label(label_text(LabelKind::AndFalse, label_num)),
            TacInstrView::Copy(final_temp_name, TacVal::Lit(0, final_temp_name.1)),
            TacInstrView::Label(label_text(LabelKind::AndEnd, label_num)),
        ]);
    } else {
        emit(&mut tail, TacInstr::Jmp(make_label(LabelKind::OrEnd, label_num)));
        emit(&mut tail, TacInstr::Label(make_label(LabelKind::OrTrue, label_num)));
        emit(&mut tail, TacInstr::Copy(final_temp_name, TacVal::Lit(1, final_temp_name.1)));
        emit(&mut tail, TacInstr::Label(make_label(LabelKind::OrEnd, label_num)));
        assert(tac_view(tail@) =~= seq![
            TacInstrView::BinOp(
                final_temp_name,
                rhs_val,
                TacVal::Lit(0, final_temp_name.1),
                BinOp::NotEquals,
            ),
            TacInstrView::Jmp(label_text(LabelKind::OrEnd, label_num)),
            TacInstrView::Label(label_text(LabelKind::OrTrue, label_num)),
            TacInstrView::Copy(final_temp_name, TacVal::Lit(1, final_temp_name.1)),
            TacInstrView::Label(label_text(LabelKind::OrEnd, label_num)),
        ]);
    }
    emit_all(&mut result, tail);
    assert(tac_view(result@) == short_circuit_code(op, final_temp_name, label_num, ra, rb));
    Ok((result, TacVal::Var(final_temp_name)))
}

/// Lowers `decision_expr ? expr1 : expr2`: both branches write the same
/// temporary, and only one of them runs.
pub fn generate_ternary_tac(
    decision_expr: &Expr,
    expr1: &Expr,
    expr2: &Expr,
    code_env: &CodeEnv,
    target_temp_name: Option<Identifier>,
    suggested_size: Option<VarSize>,
    ctx: &mut TacContext,
) -> (res: Result<(Vec<TacInstr>, TacVal), CompileError>)
    ensures
        lowered_as(
            res,
            *final(ctx),
            lower_ternary(
                decision_expr@,
                expr1@,
                expr2@,
                code_env@.vars,
                target_temp_name,
                suggested_size,
                *old(ctx),
            ),
        ),
    decreases 1 + expr_height(decision_expr@) + expr_height(expr1@) + expr_height(expr2@), 0nat,
{
    let size = match get_pair_size(expr1, expr2, code_env) {
        Ok(s) => s,
        Err(e) => {
            return Err(e);
        },
    };
    let final_temp_name = match pick_destination(
        target_temp_name,
        or_default(or_size(size, suggested_size)),
        ctx,
    ) {
        Ok(t) => t,
        Err(e) => {
            return Err(e);
        },
    };
    let label_num = match ctx.get_new_label_number() {
        Ok(n) => n,
        Err(e) => {
            return Err(e);
        },
    };
    let (mut result, decision_val) = match generate_expr_tac(
        decision_expr,
        code_env,
        None,
        None,
        ctx,
    ) {
        Ok(pair) => pair,
        Err(e) => {
            return Err(e);
        },
    };
    let ghost rc = ExprTac { code: tac_view(result@), val: decision_val, ctx: *ctx };
    emit(
        &mut result,
        TacInstr::JmpZero(make_label(LabelKind::TernaryFalse, label_num), decision_val),
    );
    let (res_expr1, val1) = match generate_expr_tac(
        expr1,
        code_env,
        Some(final_temp_name),
        Some(final_temp_name.1),
        ctx,
    ) {
        Ok(pair) => pair,
        Err(e) => {
            return Err(e);
        },
    };
    let ghost rx = ExprTac { code: tac_view(res_expr1@), val: val1, ctx: *ctx };
    emit_all(&mut result, res_expr1);
    let mut middle: Vec<TacInstr> = Vec::new();
    emit(&mut middle, TacInstr::Jmp(make_label(LabelKind::TernaryEnd, label_num)));
    emit(&mut middle, TacInstr::Label(make_label(LabelKind::TernaryFalse, label_num)));
    assert(tac_view(middle@) =~= seq![
        TacInstrView::Jmp(label_text(LabelKind::TernaryEnd, label_num)),
        TacInstrView::Label(label_text(LabelKind::TernaryFalse, label_num)),
    ]);
    emit_all(&mut result, middle);
    let (mut res_expr2, val2) = match generate_expr_tac(
        expr2,
        code_env,
        Some(final_temp_name),
        Some(final_temp_name.1),
        ctx,
    ) {
        Ok(pair) => pair,
        Err(e) => {
            return Err(e);
        },
    };
    let ghost ry = ExprTac { code: tac_view(res_expr2@), val: val2, ctx: *ctx };
    emit(&mut res_expr2, TacInstr::Label(make_label(LabelKind::TernaryEnd, label_num)));
    emit_all(&mut result, res_expr2);
    assert(tac_view(result@) == ternary_code(label_num, rc, rx, ry));
    Ok((result, TacVal::Var(final_temp_name)))
}

/// Lowers a call: the arguments are computed from left to right, then the
/// call stores what the function returns.
pub fn gen_function_call_tac(
    func_ident: &String,
    args: &Vec<Expr>,
    code_env: &CodeEnv,
    target_temp_name: Option<Identifier>,
    ctx: &mut TacContext,
) -> (res: Result<(Vec<TacInstr>, TacVal), CompileError>)
    ensures
        lowered_as(
            res,
            *final(ctx),
            lower_call(
                func_ident@,
                exprs_view(args@),
                code_env@.vars,
                target_temp_name,
                *old(ctx),
            ),
        ),
    decreases 1 + heights(exprs_view(args@)), 0nat,
{
    let final_temp_name = match pick_destination(target_temp_name, VarSize::default(), ctx) {
        Ok(t) => t,
        Err(e) => {
            return Err(e);
        },
    };
    let ghost views = exprs_view(args@);
    let ghost vars = code_env@.vars;
    let ghost start = *ctx;
    let mut result: Vec<TacInstr> = Vec::new();
    let mut arg_vals: Vec<TacVal> = Vec::new();
    assert(tac_view(result@) =~= Seq::<TacInstrView>::empty());

    let mut i: usize = 0;
    while i < args.len()
        invariant
            i <= args.len(),
            views == exprs_view(args@),
            vars == code_env@.vars,
            pick_target(target_temp_name, default_size(), *old(ctx)) == Ok::<
                (Identifier, TacContext),
                CompileErrorView,
            >((final_temp_name, start)),
            lower_args(views.take(i as int), vars, start) == Ok::<ArgsTac, CompileErrorView>(
                ArgsTac { code: tac_view(result@), vals: arg_vals@, ctx: *ctx },
            ),
        decreases args.len() - i,
    {
        assert(views.take(i + 1).drop_last() =~= views.take(i as int));
        assert(views.take(i + 1).last() == args@[i as int]@);
        proof {
            lemma_heights_bound(views, i as int);
        }
        match generate_expr_tac(&args[i], code_env, None, None, ctx) {
            Ok((instrs, arg_val)) => {
                emit_all(&mut result, instrs);
                arg_vals.push(arg_val);
            },
            Err(e) => {
                proof {
                    assert(lower_args(views.take(i + 1), vars, start) == Err::<
                        ArgsTac,
                        CompileErrorView,
                    >(e@));
                    lemma_lower_args_fails(views, vars, start, i + 1);
                }
                return Err(e);
            },
        }
        i += 1;
    }
    assert(views.take(i as int) =~= views);
    emit(&mut result, TacInstr::Call(func_ident.clone(), arg_vals, Some(final_temp_name)));
    Ok((result, TacVal::Var(final_temp_name)))
}

} // verus!
