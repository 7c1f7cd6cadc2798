//! Temporaries are fresh: the counter is ahead of every temporary in
//! scope, so that a temporary it hands out is none of them.

use vstd::prelude::*;
use crate::parser::expr_parser::{expr_height, heights, BinOp, ExprView, UnOp};
use crate::parser::{stmt_height, stmt_heights, FunctionView, StatementView};
use crate::tac::expr::{
    expr_size, is_short_circuit, lower_args, lower_assign, lower_binop, lower_call, lower_expr,
    lower_postfix, lower_prefix, lower_short_circuit, lower_ternary, lower_unop, pair_size,
    pick_target, size_or, size_or_default, step_instr,
};
use crate::tac::labels::{label_text, LabelKind};
use crate::tac::laws::stmt_reads::lemma_resolve_bound;
use crate::tac::stmt::{
    inside_loop, lower_for, lower_function, lower_if, lower_opt_cond, lower_opt_expr, lower_stmt,
    lower_stmts, lower_while,
};
use crate::tac::{
    fresh_label, fresh_temp, instr_writes, lookup, resolve, BindingView, CodeEnvView, Identifier,
    TacContext, TacInstrView, TacVal,
};
use crate::types::{default_size, type_size, VarSize};

verus! {

/// The counter of temporaries is ahead of every temporary in scope.
pub open spec fn scope_below(vars: Seq<BindingView>, ctx: TacContext) -> bool {
    forall|i: int| 0 <= i < vars.len() ==> (#[trigger] vars[i]).id.0 < ctx.next_temp
}

/// Neither counter has gone back.
pub open spec fn grows(before: TacContext, after: TacContext) -> bool {
    before.next_temp <= after.next_temp && before.next_label <= after.next_label
}

/// A fresh temporary differs from every temporary in scope, and the
/// counter stays ahead of them.
pub proof fn lemma_fresh_temp_differs(vars: Seq<BindingView>, ctx: TacContext, size: VarSize)
    requires
        scope_below(vars, ctx),
        fresh_temp(ctx, size) is Ok,
    ensures
        ({
            let (id, after) = fresh_temp(ctx, size)->Ok_0;
            &&& id.0 == ctx.next_temp
            &&& after.next_temp == ctx.next_temp + 1
            &&& after.next_label == ctx.next_label
            &&& forall|i: int| 0 <= i < vars.len() ==> (#[trigger] vars[i]).id.0 != id.0
            &&& forall|n: Seq<char>| resolve(vars, n) != Some(id)
            &&& scope_below(vars, after)
        }),
{
    let (id, after) = fresh_temp(ctx, size)->Ok_0;
    assert forall|n: Seq<char>| resolve(vars, n) != Some(id) by {
        lemma_resolve_bound(vars, n);
        if resolve(vars, n) == Some(id) {
            let i = choose|i: int| 0 <= i < vars.len() && (#[trigger] vars[i]).id == id;
            assert(vars[i].id.0 < ctx.next_temp);
        }
    }
}

/// A counter that is ahead of the scope stays ahead when it grows.
pub proof fn lemma_scope_below_grows(vars: Seq<BindingView>, before: TacContext, after: TacContext)
    requires
        scope_below(vars, before),
        grows(before, after),
    ensures
        scope_below(vars, after),
{
}

/// Counters only grow: lowering an expression never takes a counter
/// back, so a counter that is ahead of the scope stays ahead.
pub proof fn lemma_expr_counters(
    e: ExprView,
    vars: Seq<BindingView>,
    target: Option<Identifier>,
    hint: Option<VarSize>,
    ctx: TacContext,
)
    requires
        lower_expr(e, vars, target, hint, ctx) is Ok,
    ensures
        grows(ctx, lower_expr(e, vars, target, hint, ctx)->Ok_0.ctx),
        scope_below(vars, ctx) ==> scope_below(
            vars,
            lower_expr(e, vars, target, hint, ctx)->Ok_0.ctx,
        ),
    decreases expr_height(e), 2nat,
{
    match e {
        ExprView::Assign(n, rhs) => lemma_assign_counters(n, *rhs, vars, target, ctx),
        ExprView::UnOp(op, inner) => lemma_unop_counters(op, *inner, vars, target, hint, ctx),
        ExprView::BinOp(op, a, b) => lemma_binop_counters(op, *a, *b, vars, target, hint, ctx),
        ExprView::Ternary(c, x, y) => lemma_ternary_counters(*c, *x, *y, vars, target, hint, ctx),
        ExprView::FunctionCall(f, args) => lemma_call_counters(f, args, vars, target, ctx),
        _ => {},
    }
}

/// Counters only grow in an assignment.
pub proof fn lemma_assign_counters(
    n: Seq<char>,
    rhs: ExprView,
    vars: Seq<BindingView>,
    target: Option<Identifier>,
    ctx: TacContext,
)
    requires
        lower_assign(n, rhs, vars, target, ctx) is Ok,
    ensures
        grows(ctx, lower_assign(n, rhs, vars, target, ctx)->Ok_0.ctx),
    decreases 1 + expr_height(rhs), 0nat,
{
    let id = lookup(vars, n)->Ok_0;
    lemma_expr_counters(rhs, vars, Some(id), Some(id.1), ctx);
}

/// Counters only grow in a unary operation.
pub proof fn lemma_unop_counters(
    op: UnOp,
    inner: ExprView,
    vars: Seq<BindingView>,
    target: Option<Identifier>,
    hint: Option<VarSize>,
    ctx: TacContext,
)
    requires
        lower_unop(op, inner, vars, target, hint, ctx) is Ok,
    ensures
        grows(ctx, lower_unop(op, inner, vars, target, hint, ctx)->Ok_0.ctx),
    decreases 1 + expr_height(inner), 0nat,
{
    let size = expr_size(inner, vars)->Ok_0;
    let (t, c1) = pick_target(target, size_or_default(size_or(size, hint)), ctx)->Ok_0;
    lemma_expr_counters(inner, vars, None, hint, c1);
}

/// Counters only grow in a binary operation.
pub proof fn lemma_binop_counters(
    op: BinOp,
    a: ExprView,
    b: ExprView,
    vars: Seq<BindingView>,
    target: Option<Identifier>,
    hint: Option<VarSize>,
    ctx: TacContext,
)
    requires
        lower_binop(op, a, b, vars, target, hint, ctx) is Ok,
    ensures
        grows(ctx, lower_binop(op, a, b, vars, target, hint, ctx)->Ok_0.ctx),
    decreases 1 + expr_height(a) + expr_height(b), 1nat,
{
    let size = pair_size(a, b, vars)->Ok_0;
    if is_short_circuit(op) {
        assert(lower_binop(op, a, b, vars, target, hint, ctx) == lower_short_circuit(
            op,
            a,
            b,
            vars,
            target,
            hint,
            ctx,
        ));
        let (t, c1) = pick_target(target, size_or_default(size_or(size, hint)), ctx)->Ok_0;
        let (k, c2) = fresh_label(c1)->Ok_0;
        let ra = lower_expr(a, vars, None, None, c2)->Ok_0;
        lemma_expr_counters(a, vars, None, None, c2);
        lemma_expr_counters(b, vars, None, None, ra.ctx);
    } else {
        let ra = lower_expr(a, vars, None, size_or(size, hint), ctx)->Ok_0;
        lemma_expr_counters(a, vars, None, size_or(size, hint), ctx);
        lemma_expr_counters(b, vars, None, size_or(size, hint), ra.ctx);
    }
}

/// Counters only grow in a ternary.
pub proof fn lemma_ternary_counters(
    c: ExprView,
    x: ExprView,
    y: ExprView,
    vars: Seq<BindingView>,
    target: Option<Identifier>,
    hint: Option<VarSize>,
    ctx: TacContext,
)
    requires
        lower_ternary(c, x, y, vars, target, hint, ctx) is Ok,
    ensures
        grows(ctx, lower_ternary(c, x, y, vars, target, hint, ctx)->Ok_0.ctx),
    decreases 1 + expr_height(c) + expr_height(x) + expr_height(y), 0nat,
{
    let size = pair_size(x, y, vars)->Ok_0;
    let (t, c1) = pick_target(target, size_or_default(size_or(size, hint)), ctx)->Ok_0;
    let (k, c2) = fresh_label(c1)->Ok_0;
    let rc = lower_expr(c, vars, None, None, c2)->Ok_0;
    let rx = lower_expr(x, vars, Some(t), Some(t.1), rc.ctx)->Ok_0;
    lemma_expr_counters(c, vars, None, None, c2);
    lemma_expr_counters(x, vars, Some(t), Some(t.1), rc.ctx);
    lemma_expr_counters(y, vars, Some(t), Some(t.1), rx.ctx);
}

/// Counters only grow in a call.
pub proof fn lemma_call_counters(
    f: Seq<char>,
    args: Seq<ExprView>,
    vars: Seq<BindingView>,
    target: Option<Identifier>,
    ctx: TacContext,
)
    requires
        lower_call(f, args, vars, target, ctx) is Ok,
    ensures
        grows(ctx, lower_call(f, args, vars, target, ctx)->Ok_0.ctx),
    decreases 1 + heights(args), 0nat,
{
    let (t, c1) = pick_target(target, default_size(), ctx)->Ok_0;
    lemma_args_counters(args, vars, c1);
}

/// Counters only grow in a list of expressions.
pub proof fn lemma_args_counters(args: Seq<ExprView>, vars: Seq<BindingView>, ctx: TacContext)
    requires
        lower_args(args, vars, ctx) is Ok,
    ensures
        grows(ctx, lower_args(args, vars, ctx)->Ok_0.ctx),
    decreases heights(args), 3nat,
{
    if args.len() > 0 {
        let front = lower_args(args.drop_last(), vars, ctx)->Ok_0;
        lemma_args_counters(args.drop_last(), vars, ctx);
        lemma_expr_counters(args.last(), vars, None, None, front.ctx);
    }
}

/// Counters only grow in an expression that may be absent.
pub proof fn lemma_opt_counters(
    e: Option<ExprView>,
    vars: Seq<BindingView>,
    exit: Seq<char>,
    ctx: TacContext,
)
    ensures
        lower_opt_expr(e, vars, ctx) matches Ok(r) ==> grows(ctx, r.ctx),
        lower_opt_cond(e, vars, exit, ctx) matches Ok(r) ==> grows(ctx, r.ctx),
{
    if let Some(x) = e {
        if lower_expr(x, vars, None, None, ctx) is Ok {
            lemma_expr_counters(x, vars, None, None, ctx);
        }
    }
}

/// Freshness is kept: if the counter is ahead of every temporary in scope
/// before a statement, it is ahead of every temporary in scope after it,
/// and neither counter has gone back.
pub proof fn lemma_stmt_keeps_scope(s: StatementView, env: CodeEnvView, ctx: TacContext)
    requires
        lower_stmt(s, env, ctx) is Ok,
        scope_below(env.vars, ctx),
    ensures
        grows(ctx, lower_stmt(s, env, ctx)->Ok_0.ctx),
        scope_below(lower_stmt(s, env, ctx)->Ok_0.vars, lower_stmt(s, env, ctx)->Ok_0.ctx),
    decreases stmt_height(s), 1nat,
{
    match s {
        StatementView::Expr(e) => lemma_expr_counters(e, env.vars, None, None, ctx),
        StatementView::Return(e) => lemma_expr_counters(e, env.vars, None, None, ctx),
        StatementView::Declare(n, init, ty) => {
            lemma_fresh_temp_differs(env.vars, ctx, type_size(ty));
            let (id, c1) = fresh_temp(ctx, type_size(ty))->Ok_0;
            let vars = env.vars.push(BindingView { name: n, id });
            assert(scope_below(vars, c1));
            if let Some(e) = init {
                lemma_expr_counters(e, vars, Some(id), Some(id.1), c1);
            }
        },
        StatementView::CompoundStmt(stmts) => {
            lemma_stmts_keep_scope(stmts, env, ctx);
        },
        StatementView::If(c, t, e) => lemma_if_keeps_scope(c, *t, e, env, ctx),
        StatementView::While(c, body) => lemma_while_keeps_scope(c, *body, env, ctx),
        StatementView::For(init, cond, post, body) => lemma_for_keeps_scope(
            *init,
            cond,
            post,
            *body,
            env,
            ctx,
        ),
        _ => {},
    }
}

/// Freshness is kept by a list of statements.
pub proof fn lemma_stmts_keep_scope(stmts: Seq<StatementView>, env: CodeEnvView, ctx: TacContext)
    requires
        lower_stmts(stmts, env, ctx) is Ok,
        scope_below(env.vars, ctx),
    ensures
        grows(ctx, lower_stmts(stmts, env, ctx)->Ok_0.ctx),
        scope_below(lower_stmts(stmts, env, ctx)->Ok_0.vars, lower_stmts(stmts, env, ctx)->Ok_0.ctx),
    decreases stmt_heights(stmts), 2nat,
{
    if stmts.len() > 0 {
        let front = lower_stmts(stmts.drop_last(), env, ctx)->Ok_0;
        lemma_stmts_keep_scope(stmts.drop_last(), env, ctx);
        lemma_stmt_keeps_scope(
            stmts.last(),
            CodeEnvView { vars: front.vars, loops: env.loops },
            front.ctx,
        );
    }
}

/// Counters only grow in an `if`.
pub proof fn lemma_if_keeps_scope(
    c: ExprView,
    t: StatementView,
    e: Option<Box<StatementView>>,
    env: CodeEnvView,
    ctx: TacContext,
)
    requires
        lower_if(c, t, e, env, ctx) is Ok,
        scope_below(env.vars, ctx),
    ensures
        grows(ctx, lower_if(c, t, e, env, ctx)->Ok_0.ctx),
        lower_if(c, t, e, env, ctx)->Ok_0.vars == env.vars,
    decreases
            1 + stmt_height(t) + match e {
                Some(x) => stmt_height(*x),
                None => 0,
            },
            0nat,
{
    let (k, c1) = fresh_label(ctx)->Ok_0;
    let rc = lower_expr(c, env.vars, None, None, c1)->Ok_0;
    let rt = lower_stmt(t, env, rc.ctx)->Ok_0;
    lemma_expr_counters(c, env.vars, None, None, c1);
    lemma_stmt_keeps_scope(t, env, rc.ctx);
    if let Some(x) = e {
        lemma_scope_below_grows(env.vars, ctx, rt.ctx);
        lemma_stmt_keeps_scope(*x, env, rt.ctx);
    }
}

/// Counters only grow in a `while`.
pub proof fn lemma_while_keeps_scope(
    c: ExprView,
    body: StatementView,
    env: CodeEnvView,
    ctx: TacContext,
)
    requires
        lower_while(c, body, env, ctx) is Ok,
        scope_below(env.vars, ctx),
    ensures
        grows(ctx, lower_while(c, body, env, ctx)->Ok_0.ctx),
        lower_while(c, body, env, ctx)->Ok_0.vars == env.vars,
    decreases 1 + stmt_height(body), 0nat,
{
    let (k, c1) = fresh_label(ctx)->Ok_0;
    let rc = lower_expr(c, env.vars, None, None, c1)->Ok_0;
    lemma_expr_counters(c, env.vars, None, None, c1);
    lemma_stmt_keeps_scope(
        body,
        inside_loop(
            env.vars,
            env,
            label_text(LabelKind::WhileStart, k),
            label_text(LabelKind::WhileEnd, k),
        ),
        rc.ctx,
    );
}

/// Counters only grow in a `for`.
pub proof fn lemma_for_keeps_scope(
    init: StatementView,
    cond: Option<ExprView>,
    post: Option<ExprView>,
    body: StatementView,
    env: CodeEnvView,
    ctx: TacContext,
)
    requires
        lower_for(init, cond, post, body, env, ctx) is Ok,
        scope_below(env.vars, ctx),
    ensures
        grows(ctx, lower_for(init, cond, post, body, env, ctx)->Ok_0.ctx),
        lower_for(init, cond, post, body, env, ctx)->Ok_0.vars == env.vars,
    decreases 1 + stmt_height(init) + stmt_height(body), 0nat,
{
    let (k, c1) = fresh_label(ctx)->Ok_0;
    let end = label_text(LabelKind::ForEnd, k);
    let ri = lower_stmt(init, env, c1)->Ok_0;
    let rc = lower_opt_cond(cond, ri.vars, end, ri.ctx)->Ok_0;
    let inner = inside_loop(ri.vars, env, label_text(LabelKind::ForPost, k), end);
    let rb = lower_stmt(body, inner, rc.ctx)->Ok_0;
    lemma_stmt_keeps_scope(init, env, c1);
    lemma_opt_counters(cond, ri.vars, end, ri.ctx);
    lemma_scope_below_grows(ri.vars, ri.ctx, rc.ctx);
    lemma_stmt_keeps_scope(body, inner, rc.ctx);
    lemma_opt_counters(post, ri.vars, end, rb.ctx);
}

/// A postfix increment or decrement keeps the value from before the
/// change: where the counter is ahead of the scope, the temporary that
/// takes the value is not the variable's, the value is copied there
/// before the one write of the variable, and it is what the expression
/// yields, directly or by a last copy to the target.
pub proof fn lemma_postfix_keeps_value(
    n: Seq<char>,
    op: BinOp,
    vars: Seq<BindingView>,
    target: Option<Identifier>,
    ctx: TacContext,
)
    requires
        scope_below(vars, ctx),
        lower_postfix(n, op, vars, target, ctx) is Ok,
    ensures
        ({
            let r = lower_postfix(n, op, vars, target, ctx)->Ok_0;
            let id = lookup(vars, n)->Ok_0;
            let kept = fresh_temp(ctx, id.1)->Ok_0.0;
            &&& kept != id
            &&& r.code[0] == TacInstrView::Copy(kept, TacVal::Var(id))
            &&& r.code[1] == step_instr(id, op)
            &&& match target {
                None => r.code.len() == 2 && r.val == TacVal::Var(kept),
                Some(t) => r.code.len() == 3 && r.code[2] == TacInstrView::Copy(
                    t,
                    TacVal::Var(kept),
                ) && r.val == TacVal::Var(t),
            }
        }),
{
    let id = lookup(vars, n)->Ok_0;
    lemma_fresh_temp_differs(vars, ctx, id.1);
}

/// A prefix increment or decrement writes its variable once, with its
/// first instruction, whatever the target.
pub proof fn lemma_prefix_writes_once(
    n: Seq<char>,
    op: BinOp,
    vars: Seq<BindingView>,
    target: Option<Identifier>,
    ctx: TacContext,
)
    requires
        lower_prefix(n, op, vars, target, ctx) is Ok,
    ensures
        ({
            let r = lower_prefix(n, op, vars, target, ctx)->Ok_0;
            let id = lookup(vars, n)->Ok_0;
            &&& r.code.len() >= 1
            &&& r.code[0] == step_instr(id, op)
            &&& forall|j: int| 0 < j < r.code.len() ==> instr_writes(#[trigger] r.code[j]) != Some(id)
            &&& r.val == match target {
                Some(t) => TacVal::Var(t),
                None => TacVal::Var(id),
            }
        }),
{
}

/// In the lowering of a function the counter is ahead of the scope from
/// the start, where nothing is in scope, to the end of the body.
pub proof fn lemma_function_scope(f: FunctionView)
    requires
        lower_function(f) is Ok,
    ensures
        ({
            let start = TacContext { next_temp: 0, next_label: 0 };
            let r = lower_stmts(
                f.body,
                CodeEnvView { vars: Seq::empty(), loops: Seq::empty() },
                start,
            )->Ok_0;
            grows(start, r.ctx) && scope_below(r.vars, r.ctx)
        }),
{
    lemma_stmts_keep_scope(
        f.body,
        CodeEnvView { vars: Seq::empty(), loops: Seq::empty() },
        TacContext { next_temp: 0, next_label: 0 },
    );
}

} // verus!
