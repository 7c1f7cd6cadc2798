//! Reads and writes of temporaries in the code of statements and of whole
//! functions.

use vstd::prelude::*;
use crate::codegen::{reads_follow_writes, written_before};
use crate::parser::expr_parser::ExprView;
use crate::parser::{stmt_height, stmt_heights, FunctionView, StatementView};
use crate::tac::expr::{lower_expr, ExprTac};
use crate::tac::labels::{label_text, LabelKind};
use crate::tac::laws::reads::{
    covered, known, lemma_covered_concat, lemma_covered_widen, lemma_expr_reads, lemma_known_later,
    lemma_push_none, lemma_push_one, lemma_reads_ok_widen, lemma_writes_concat, lemma_writes_push,
    mentions, reads_ok, variables_of, writes_in,
};
use crate::tac::stmt::{
    for_code, if_code, if_else_code, inside_loop, lower_for, lower_function, lower_if,
    lower_opt_cond, lower_opt_expr, lower_stmt, lower_stmts, lower_while, while_code,
};
use crate::tac::{
    fresh_label, fresh_temp, instr_reads, resolve, BindingView, CodeEnvView, Identifier,
    TacContext, TacInstrView, TacVal,
};
use crate::types::{default_size, type_size};

verus! {

/// Whether every declaration in the statement gives its variable an
/// initial value that does not name the variable itself.
pub open spec fn initialised(s: StatementView) -> bool
    decreases s,
{
    match s {
        StatementView::Declare(n, init, _) => init matches Some(e) && !mentions(e, n),
        StatementView::CompoundStmt(stmts) => all_initialised(stmts),
        StatementView::If(_, t, e) => initialised(*t) && (e matches Some(x) ==> initialised(*x)),
        StatementView::While(_, body) => initialised(*body),
        StatementView::For(init, _, _, body) => initialised(*init) && initialised(*body),
        _ => true,
    }
}

/// Whether every declaration in the statements gives its variable an
/// initial value that does not name the variable itself.
pub open spec fn all_initialised(stmts: Seq<StatementView>) -> bool
    decreases stmts,
{
    if stmts.len() == 0 {
        true
    } else {
        all_initialised(stmts.drop_last()) && initialised(stmts.last())
    }
}

/// Whether a declaration leaves its variable without a value: it gives
/// no initial value, or one that names the variable itself.
pub open spec fn leaves_unset(n: Seq<char>, init: Option<ExprView>) -> bool {
    !(init matches Some(e) && !mentions(e, n))
}

/// The temporaries of the variables that the statement declares without a
/// value. They are the only temporaries that the code of a statement may
/// read before it writes them.
pub open spec fn unset(s: StatementView, env: CodeEnvView, ctx: TacContext) -> Set<Identifier>
    decreases stmt_height(s), 1nat,
{
    match s {
        StatementView::Declare(n, init, ty) => if leaves_unset(n, init) {
            match fresh_temp(ctx, type_size(ty)) {
                Ok((id, _)) => set![id],
                Err(_) => Set::empty(),
            }
        } else {
            Set::empty()
        },
        StatementView::CompoundStmt(stmts) => unset_all(stmts, env, ctx),
        StatementView::If(c, t, e) => unset_if(c, *t, e, env, ctx),
        StatementView::While(c, body) => unset_while(c, *body, env, ctx),
        StatementView::For(init, cond, _, body) => unset_for(*init, cond, *body, env, ctx),
        _ => Set::empty(),
    }
}

/// The temporaries of the variables that the branches of an `if` declare
/// without a value.
pub open spec fn unset_if(
    c: ExprView,
    t: StatementView,
    e: Option<Box<StatementView>>,
    env: CodeEnvView,
    ctx: TacContext,
) -> Set<Identifier>
    decreases
            1 + stmt_height(t) + match e {
                Some(x) => stmt_height(*x),
                None => 0,
            },
            0nat,
{
    match fresh_label(ctx) {
        Err(_) => Set::empty(),
        Ok((_, c1)) => match lower_expr(c, env.vars, None, None, c1) {
            Err(_) => Set::empty(),
            Ok(rc) => unset(t, env, rc.ctx).union(
                match (e, lower_stmt(t, env, rc.ctx)) {
                    (Some(x), Ok(rt)) => unset(*x, env, rt.ctx),
                    _ => Set::empty(),
                },
            ),
        },
    }
}

/// The temporaries of the variables that the body of a `while` declares
/// without a value.
pub open spec fn unset_while(c: ExprView, body: StatementView, env: CodeEnvView, ctx: TacContext) -> Set<
    Identifier,
>
    decreases 1 + stmt_height(body), 0nat,
{
    match fresh_label(ctx) {
        Err(_) => Set::empty(),
        Ok((k, c1)) => match lower_expr(c, env.vars, None, None, c1) {
            Err(_) => Set::empty(),
            Ok(rc) => unset(
                body,
                inside_loop(
                    env.vars,
                    env,
                    label_text(LabelKind::WhileStart, k),
                    label_text(LabelKind::WhileEnd, k),
                ),
                rc.ctx,
            ),
        },
    }
}

/// The temporaries of the variables that the initial statement and the
/// body of a `for` declare without a value.
pub open spec fn unset_for(
    init: StatementView,
    cond: Option<ExprView>,
    body: StatementView,
    env: CodeEnvView,
    ctx: TacContext,
) -> Set<Identifier>
    decreases 1 + stmt_height(init) + stmt_height(body), 0nat,
{
    match fresh_label(ctx) {
        Err(_) => Set::empty(),
        Ok((k, c1)) => unset(init, env, c1).union(
            match lower_stmt(init, env, c1) {
                Err(_) => Set::empty(),
                Ok(ri) => match lower_opt_cond(
                    cond,
                    ri.vars,
                    label_text(LabelKind::ForEnd, k),
                    ri.ctx,
                ) {
                    Err(_) => Set::empty(),
                    Ok(rc) => unset(
                        body,
                        inside_loop(
                            ri.vars,
                            env,
                            label_text(LabelKind::ForPost, k),
                            label_text(LabelKind::ForEnd, k),
                        ),
                        rc.ctx,
                    ),
                },
            },
        ),
    }
}

/// The temporaries of the variables that the statements declare without a
/// value.
pub open spec fn unset_all(stmts: Seq<StatementView>, env: CodeEnvView, ctx: TacContext) -> Set<
    Identifier,
>
    decreases stmt_heights(stmts), 2nat,
{
    if stmts.len() == 0 {
        Set::empty()
    } else {
        unset_all(stmts.drop_last(), env, ctx).union(
            match lower_stmts(stmts.drop_last(), env, ctx) {
                Err(_) => Set::empty(),
                Ok(front) => unset(
                    stmts.last(),
                    CodeEnvView { vars: front.vars, loops: env.loops },
                    front.ctx,
                ),
            },
        )
    }
}

/// Whether `base` holds every temporary of `some`.
pub open spec fn holds_all(base: Set<Identifier>, some: Set<Identifier>) -> bool {
    forall|id: Identifier| some.contains(id) ==> base.contains(id)
}

/// The temporaries of the variables in scope.
pub open spec fn bound_ids(vars: Seq<BindingView>) -> Set<Identifier> {
    Set::new(|id: Identifier| exists|i: int| 0 <= i < vars.len() && (#[trigger] vars[i]).id == id)
}

/// The temporaries in `defined` and those that `code` writes.
pub open spec fn with_writes(defined: Set<Identifier>, code: Seq<TacInstrView>) -> Set<Identifier> {
    Set::new(|id: Identifier| defined.contains(id) || writes_in(code, id))
}

/// Whether every temporary of a variable in scope is in `defined`.
pub open spec fn scope_defined(vars: Seq<BindingView>, defined: Set<Identifier>) -> bool {
    forall|id: Identifier| bound_ids(vars).contains(id) ==> defined.contains(id)
}

/// The temporary that a name resolves to belongs to a variable in scope.
pub proof fn lemma_resolve_bound(vars: Seq<BindingView>, m: Seq<char>)
    ensures
        resolve(vars, m) matches Some(id) ==> bound_ids(vars).contains(id),
    decreases vars.len(),
{
    if vars.len() > 0 {
        if vars.last().name == m {
            assert(vars[vars.len() - 1].id == vars.last().id);
        } else {
            lemma_resolve_bound(vars.drop_last(), m);
            if let Some(id) = resolve(vars.drop_last(), m) {
                let i = choose|i: int|
                    0 <= i < vars.drop_last().len() && (#[trigger] vars.drop_last()[i]).id == id;
                assert(vars[i].id == id);
            }
        }
    }
}

/// The variables that an expression names are in scope.
pub proof fn lemma_variables_in_scope(
    e: ExprView,
    vars: Seq<BindingView>,
    defined: Set<Identifier>,
)
    requires
        scope_defined(vars, defined),
    ensures
        forall|id: Identifier| variables_of(e, vars).contains(id) ==> defined.contains(id),
{
    assert forall|id: Identifier| variables_of(e, vars).contains(id) implies defined.contains(
        id,
    ) by {
        let m = choose|m: Seq<char>| mentions(e, m) && resolve(vars, m) == Some(id);
        lemma_resolve_bound(vars, m);
    }
}

/// The code of an expression in a statement reads only what is defined.
pub proof fn lemma_expr_in_scope(
    e: ExprView,
    vars: Seq<BindingView>,
    target: Option<Identifier>,
    hint: Option<crate::types::VarSize>,
    ctx: TacContext,
    defined: Set<Identifier>,
)
    requires
        lower_expr(e, vars, target, hint, ctx) is Ok,
        scope_defined(vars, defined),
    ensures
        reads_ok(lower_expr(e, vars, target, hint, ctx)->Ok_0, target, defined),
{
    lemma_expr_reads(e, vars, target, hint, ctx);
    lemma_variables_in_scope(e, vars, defined);
    lemma_reads_ok_widen(
        lower_expr(e, vars, target, hint, ctx)->Ok_0,
        target,
        variables_of(e, vars),
        defined,
    );
}

/// The code of an expression whose value is not used reads only what is
/// defined.
pub proof fn lemma_opt_expr_reads(
    e: Option<ExprView>,
    vars: Seq<BindingView>,
    ctx: TacContext,
    defined: Set<Identifier>,
)
    requires
        lower_opt_expr(e, vars, ctx) is Ok,
        scope_defined(vars, defined),
    ensures
        covered(lower_opt_expr(e, vars, ctx)->Ok_0.code, defined),
{
    if let Some(x) = e {
        lemma_expr_in_scope(x, vars, None, None, ctx, defined);
    }
}

/// The code of the condition of a `for` reads only what is defined.
pub proof fn lemma_opt_cond_reads(
    cond: Option<ExprView>,
    vars: Seq<BindingView>,
    exit: Seq<char>,
    ctx: TacContext,
    defined: Set<Identifier>,
)
    requires
        lower_opt_cond(cond, vars, exit, ctx) is Ok,
        scope_defined(vars, defined),
    ensures
        covered(lower_opt_cond(cond, vars, exit, ctx)->Ok_0.code, defined),
{
    if let Some(c) = cond {
        let r = lower_expr(c, vars, None, None, ctx)->Ok_0;
        lemma_expr_in_scope(c, vars, None, None, ctx, defined);
        lemma_push_one(r.code, TacInstrView::JmpZero(exit, r.val), r.val, defined);
    }
}

/// Code that reads only what is defined or written before it may follow.
pub proof fn lemma_follow(
    prefix: Seq<TacInstrView>,
    c: Seq<TacInstrView>,
    defined: Set<Identifier>,
)
    requires
        covered(prefix, defined),
        covered(c, with_writes(defined, prefix)),
    ensures
        covered(prefix + c, defined),
{
    lemma_covered_concat(prefix, c, defined, with_writes(defined, prefix));
}

/// What is written stays written when more code follows.
pub proof fn lemma_with_writes_grows(
    defined: Set<Identifier>,
    c1: Seq<TacInstrView>,
    c2: Seq<TacInstrView>,
)
    ensures
        forall|id: Identifier|
            with_writes(defined, c1).contains(id) ==> with_writes(defined, c1 + c2).contains(id),
        forall|id: Identifier|
            with_writes(with_writes(defined, c1), c2).contains(id) ==> with_writes(
                defined,
                c1 + c2,
            ).contains(id),
{
    assert forall|id: Identifier|
        with_writes(with_writes(defined, c1), c2).contains(id) implies with_writes(
        defined,
        c1 + c2,
    ).contains(id) by {
        lemma_writes_concat(c1, c2, id);
    }
    assert forall|id: Identifier| with_writes(defined, c1).contains(id) implies with_writes(
        defined,
        c1 + c2,
    ).contains(id) by {
        lemma_writes_concat(c1, c2, id);
    }
}

/// What is written stays written when one more instruction follows.
pub proof fn lemma_with_writes_push(defined: Set<Identifier>, c: Seq<TacInstrView>, x: TacInstrView)
    ensures
        forall|id: Identifier|
            with_writes(defined, c).contains(id) ==> with_writes(defined, c.push(x)).contains(id),
{
    assert forall|id: Identifier| with_writes(defined, c).contains(id) implies with_writes(
        defined,
        c.push(x),
    ).contains(id) by {
        lemma_writes_push(c, x, id);
    }
}

/// Single assignment for statements: if `base` holds the temporary of
/// every variable in scope and of every variable that the statement
/// declares without a value, then the code of the statement reads no
/// temporary outside `base` before the code writes it, and the temporary of
/// every variable in scope after the statement is in `base` or written by
/// the code.
pub proof fn lemma_stmt_reads(
    s: StatementView,
    env: CodeEnvView,
    ctx: TacContext,
    base: Set<Identifier>,
)
    requires
        lower_stmt(s, env, ctx) is Ok,
        scope_defined(env.vars, base),
        holds_all(base, unset(s, env, ctx)),
    ensures
        covered(lower_stmt(s, env, ctx)->Ok_0.code, base),
        scope_defined(
            lower_stmt(s, env, ctx)->Ok_0.vars,
            with_writes(base, lower_stmt(s, env, ctx)->Ok_0.code),
        ),
    decreases stmt_height(s), 1nat,
{
    match s {
        StatementView::Empty => {},
        StatementView::Expr(e) => {
            lemma_expr_in_scope(e, env.vars, None, None, ctx, base);
        },
        StatementView::Return(e) => {
            let r = lower_expr(e, env.vars, None, None, ctx)->Ok_0;
            lemma_expr_in_scope(e, env.vars, None, None, ctx, base);
            lemma_push_one(r.code, TacInstrView::Exit(r.val), r.val, base);
        },
        StatementView::Declare(n, init, ty) => {
            let (id, c1) = fresh_temp(ctx, type_size(ty))->Ok_0;
            let vars = env.vars.push(BindingView { name: n, id });
            let code = lower_stmt(s, env, ctx)->Ok_0.code;
            assert(vars.drop_last() =~= env.vars);
            if leaves_unset(n, init) {
                assert(unset(s, env, ctx).contains(id));
                assert(scope_defined(vars, base)) by {
                    assert forall|x: Identifier| bound_ids(vars).contains(x) implies base.contains(
                        x,
                    ) by {
                        let i = choose|i: int| 0 <= i < vars.len() && (#[trigger] vars[i]).id == x;
                        if i < env.vars.len() {
                            assert(env.vars[i].id == x);
                        }
                    }
                }
                if let Some(e) = init {
                    lemma_expr_in_scope(e, vars, Some(id), Some(id.1), c1, base);
                }
            } else {
                let e = init->0;
                let r = lower_expr(e, vars, Some(id), Some(id.1), c1)->Ok_0;
                lemma_expr_reads(e, vars, Some(id), Some(id.1), c1);
                assert forall|x: Identifier| variables_of(e, vars).contains(
                    x,
                ) implies base.contains(x) by {
                    let m = choose|m: Seq<char>| mentions(e, m) && resolve(vars, m) == Some(x);
                    assert(resolve(vars, m) == resolve(env.vars, m));
                    lemma_resolve_bound(env.vars, m);
                }
                lemma_reads_ok_widen(r, Some(id), variables_of(e, vars), base);
                assert forall|x: Identifier| bound_ids(vars).contains(x) implies with_writes(
                    base,
                    r.code,
                ).contains(x) by {
                    let i = choose|i: int| 0 <= i < vars.len() && (#[trigger] vars[i]).id == x;
                    if i < env.vars.len() {
                        assert(env.vars[i].id == x);
                    }
                }
            }
        },
        StatementView::Break => {},
        StatementView::Continue => {},
        StatementView::CompoundStmt(stmts) => {
            lemma_stmts_reads(stmts, env, ctx, base);
        },
        StatementView::If(c, t, e) => lemma_if_reads(c, *t, e, env, ctx, base),
        StatementView::While(c, body) => lemma_while_reads(c, *body, env, ctx, base),
        StatementView::For(init, cond, post, body) => lemma_for_reads(
            *init,
            cond,
            post,
            *body,
            env,
            ctx,
            base,
        ),
    }
}

/// Single assignment for a list of statements.
pub proof fn lemma_stmts_reads(
    stmts: Seq<StatementView>,
    env: CodeEnvView,
    ctx: TacContext,
    base: Set<Identifier>,
)
    requires
        lower_stmts(stmts, env, ctx) is Ok,
        scope_defined(env.vars, base),
        holds_all(base, unset_all(stmts, env, ctx)),
    ensures
        covered(lower_stmts(stmts, env, ctx)->Ok_0.code, base),
        scope_defined(
            lower_stmts(stmts, env, ctx)->Ok_0.vars,
            with_writes(base, lower_stmts(stmts, env, ctx)->Ok_0.code),
        ),
    decreases stmt_heights(stmts), 2nat,
{
    if stmts.len() > 0 {
        let front = lower_stmts(stmts.drop_last(), env, ctx)->Ok_0;
        let inner = CodeEnvView { vars: front.vars, loops: env.loops };
        let r = lower_stmt(stmts.last(), inner, front.ctx)->Ok_0;
        let seen = with_writes(base, front.code);
        assert(holds_all(base, unset_all(stmts.drop_last(), env, ctx)));
        assert(holds_all(seen, unset(stmts.last(), inner, front.ctx)));
        lemma_stmts_reads(stmts.drop_last(), env, ctx, base);
        lemma_stmt_reads(stmts.last(), inner, front.ctx, seen);
        lemma_follow(front.code, r.code, base);
        lemma_with_writes_grows(base, front.code, r.code);
    }
}

/// The code of an `if` without `else` reads nothing too early if its
/// parts read nothing too early.
pub proof fn lemma_if_code_covered(
    k: u64,
    rc: ExprTac,
    then_code: Seq<TacInstrView>,
    base: Set<Identifier>,
)
    requires
        covered(rc.code, base),
        known(rc.val, rc.code, base),
        covered(then_code, base),
    ensures
        covered(if_code(k, rc, then_code), base),
{
    let end = label_text(LabelKind::IfEnd, k);
    let seg1 = rc.code.push(TacInstrView::JmpZero(end, rc.val));
    let seg2 = seg1 + then_code;
    let seg3 = seg2.push(TacInstrView::Label(end));
    assert(if_code(k, rc, then_code) =~= seg3);
    lemma_push_one(rc.code, TacInstrView::JmpZero(end, rc.val), rc.val, base);
    lemma_covered_concat(seg1, then_code, base, base);
    lemma_push_none(seg2, TacInstrView::Label(end), base);
}

/// The code of an `if` with `else` reads nothing too early if its parts
/// read nothing too early.
pub proof fn lemma_if_else_code_covered(
    k: u64,
    rc: ExprTac,
    then_code: Seq<TacInstrView>,
    else_code: Seq<TacInstrView>,
    base: Set<Identifier>,
)
    requires
        covered(rc.code, base),
        known(rc.val, rc.code, base),
        covered(then_code, base),
        covered(else_code, base),
    ensures
        covered(if_else_code(k, rc, then_code, else_code), base),
{
    let end = label_text(LabelKind::IfEnd, k);
    let els = label_text(LabelKind::IfElse, k);
    let seg1 = rc.code.push(TacInstrView::JmpZero(els, rc.val));
    let seg2 = seg1 + then_code;
    let seg3 = seg2.push(TacInstrView::Jmp(end));
    let seg4 = seg3.push(TacInstrView::Label(els));
    let seg5 = seg4 + else_code;
    let seg6 = seg5.push(TacInstrView::Label(end));
    assert(if_else_code(k, rc, then_code, else_code) =~= seg6);
    lemma_push_one(rc.code, TacInstrView::JmpZero(els, rc.val), rc.val, base);
    lemma_covered_concat(seg1, then_code, base, base);
    lemma_push_none(seg2, TacInstrView::Jmp(end), base);
    lemma_push_none(seg3, TacInstrView::Label(els), base);
    lemma_covered_concat(seg4, else_code, base, base);
    lemma_push_none(seg5, TacInstrView::Label(end), base);
}

/// Single assignment for `if`.
pub proof fn lemma_if_reads(
    c: ExprView,
    t: StatementView,
    e: Option<Box<StatementView>>,
    env: CodeEnvView,
    ctx: TacContext,
    base: Set<Identifier>,
)
    requires
        lower_if(c, t, e, env, ctx) is Ok,
        scope_defined(env.vars, base),
        holds_all(base, unset_if(c, t, e, env, ctx)),
    ensures
        covered(lower_if(c, t, e, env, ctx)->Ok_0.code, base),
    decreases
            1 + stmt_height(t) + match e {
                Some(x) => stmt_height(*x),
                None => 0,
            },
            0nat,
{
    let (k, c1) = fresh_label(ctx)->Ok_0;
    let rc = lower_expr(c, env.vars, None, None, c1)->Ok_0;
    let rt = lower_stmt(t, env, rc.ctx)->Ok_0;
    assert(holds_all(base, unset(t, env, rc.ctx)));
    lemma_expr_in_scope(c, env.vars, None, None, c1, base);
    lemma_stmt_reads(t, env, rc.ctx, base);
    match e {
        None => {
            lemma_if_code_covered(k, rc, rt.code, base);
        },
        Some(x) => {
            let re = lower_stmt(*x, env, rt.ctx)->Ok_0;
            assert(holds_all(base, unset(*x, env, rt.ctx)));
            lemma_stmt_reads(*x, env, rt.ctx, base);
            lemma_if_else_code_covered(k, rc, rt.code, re.code, base);
        },
    }
}

/// Single assignment for `while`.
pub proof fn lemma_while_reads(
    c: ExprView,
    body: StatementView,
    env: CodeEnvView,
    ctx: TacContext,
    base: Set<Identifier>,
)
    requires
        lower_while(c, body, env, ctx) is Ok,
        scope_defined(env.vars, base),
        holds_all(base, unset_while(c, body, env, ctx)),
    ensures
        covered(lower_while(c, body, env, ctx)->Ok_0.code, base),
    decreases 1 + stmt_height(body), 0nat,
{
    let (k, c1) = fresh_label(ctx)->Ok_0;
    let start = label_text(LabelKind::WhileStart, k);
    let end = label_text(LabelKind::WhileEnd, k);
    let rc = lower_expr(c, env.vars, None, None, c1)->Ok_0;
    let inner = inside_loop(env.vars, env, start, end);
    let rb = lower_stmt(body, inner, rc.ctx)->Ok_0;
    assert(holds_all(base, unset(body, inner, rc.ctx)));
    lemma_expr_in_scope(c, env.vars, None, None, c1, base);
    lemma_stmt_reads(body, inner, rc.ctx, base);
    let seg0 = Seq::<TacInstrView>::empty().push(TacInstrView::Label(start));
    let seg1 = seg0 + rc.code;
    let seg2 = seg1.push(TacInstrView::JmpZero(end, rc.val));
    let seg3 = seg2 + rb.code;
    let seg4 = seg3.push(TacInstrView::Jmp(start));
    let seg5 = seg4.push(TacInstrView::Label(end));
    assert(while_code(k, rc, rb.code) =~= seg5);
    lemma_push_none(Seq::empty(), TacInstrView::Label(start), base);
    lemma_covered_concat(seg0, rc.code, base, base);
    lemma_known_later(rc.val, seg0, rc.code, base);
    lemma_push_one(seg1, TacInstrView::JmpZero(end, rc.val), rc.val, base);
    lemma_covered_concat(seg2, rb.code, base, base);
    lemma_push_none(seg3, TacInstrView::Jmp(start), base);
    lemma_push_none(seg4, TacInstrView::Label(end), base);
}

/// Single assignment for `for`.
pub proof fn lemma_for_reads(
    init: StatementView,
    cond: Option<ExprView>,
    post: Option<ExprView>,
    body: StatementView,
    env: CodeEnvView,
    ctx: TacContext,
    base: Set<Identifier>,
)
    requires
        lower_for(init, cond, post, body, env, ctx) is Ok,
        scope_defined(env.vars, base),
        holds_all(base, unset_for(init, cond, body, env, ctx)),
    ensures
        covered(lower_for(init, cond, post, body, env, ctx)->Ok_0.code, base),
    decreases 1 + stmt_height(init) + stmt_height(body), 0nat,
{
    let (k, c1) = fresh_label(ctx)->Ok_0;
    let start = label_text(LabelKind::ForStart, k);
    let step = label_text(LabelKind::ForPost, k);
    let end = label_text(LabelKind::ForEnd, k);
    let ri = lower_stmt(init, env, c1)->Ok_0;
    let rc = lower_opt_cond(cond, ri.vars, end, ri.ctx)->Ok_0;
    let inner = inside_loop(ri.vars, env, step, end);
    let rb = lower_stmt(body, inner, rc.ctx)->Ok_0;
    let rp = lower_opt_expr(post, ri.vars, rb.ctx)->Ok_0;
    let seen = with_writes(base, ri.code);
    assert(holds_all(base, unset(init, env, c1)));
    assert(holds_all(seen, unset(body, inner, rc.ctx)));
    lemma_stmt_reads(init, env, c1, base);
    lemma_opt_cond_reads(cond, ri.vars, end, ri.ctx, seen);
    lemma_stmt_reads(body, inner, rc.ctx, seen);
    lemma_opt_expr_reads(post, ri.vars, rb.ctx, seen);
    let seg1 = ri.code.push(TacInstrView::Label(start));
    let seg2 = seg1 + rc.code;
    let seg3 = seg2 + rb.code;
    let seg4 = seg3.push(TacInstrView::Label(step));
    let seg5 = seg4 + rp.code;
    let seg6 = seg5.push(TacInstrView::Jmp(start));
    let seg7 = seg6.push(TacInstrView::Label(end));
    assert(for_code(k, ri.code, rc.code, rb.code, rp.code) =~= seg7);
    lemma_push_none(ri.code, TacInstrView::Label(start), base);
    lemma_with_writes_push(base, ri.code, TacInstrView::Label(start));
    lemma_covered_widen(rc.code, seen, with_writes(base, seg1));
    lemma_follow(seg1, rc.code, base);
    lemma_with_writes_grows(base, seg1, rc.code);
    lemma_covered_widen(rb.code, seen, with_writes(base, seg2));
    lemma_follow(seg2, rb.code, base);
    lemma_with_writes_grows(base, seg2, rb.code);
    lemma_push_none(seg3, TacInstrView::Label(step), base);
    lemma_with_writes_push(base, seg3, TacInstrView::Label(step));
    lemma_covered_widen(rp.code, seen, with_writes(base, seg4));
    lemma_follow(seg4, rp.code, base);
    lemma_push_none(seg5, TacInstrView::Jmp(start), base);
    lemma_push_none(seg6, TacInstrView::Label(end), base);
}

/// Declarations that all give their variables a value leave no variable
/// without one.
pub proof fn lemma_initialised_unset(s: StatementView, env: CodeEnvView, ctx: TacContext)
    requires
        initialised(s),
    ensures
        unset(s, env, ctx) =~= Set::<Identifier>::empty(),
    decreases stmt_height(s), 1nat,
{
    match s {
        StatementView::CompoundStmt(stmts) => lemma_all_initialised_unset(stmts, env, ctx),
        StatementView::If(c, t, e) => {
            if let Ok((_, c1)) = fresh_label(ctx) {
                if let Ok(rc) = lower_expr(c, env.vars, None, None, c1) {
                    lemma_initialised_unset(*t, env, rc.ctx);
                    if let (Some(x), Ok(rt)) = (e, lower_stmt(*t, env, rc.ctx)) {
                        lemma_initialised_unset(*x, env, rt.ctx);
                    }
                }
            }
            assert(unset(s, env, ctx) == unset_if(c, *t, e, env, ctx));
        },
        StatementView::While(c, body) => {
            if let Ok((k, c1)) = fresh_label(ctx) {
                if let Ok(rc) = lower_expr(c, env.vars, None, None, c1) {
                    lemma_initialised_unset(
                        *body,
                        inside_loop(
                            env.vars,
                            env,
                            label_text(LabelKind::WhileStart, k),
                            label_text(LabelKind::WhileEnd, k),
                        ),
                        rc.ctx,
                    );
                }
            }
            assert(unset(s, env, ctx) == unset_while(c, *body, env, ctx));
        },
        StatementView::For(init, cond, _, body) => {
            if let Ok((k, c1)) = fresh_label(ctx) {
                lemma_initialised_unset(*init, env, c1);
                if let Ok(ri) = lower_stmt(*init, env, c1) {
                    if let Ok(rc) = lower_opt_cond(
                        cond,
                        ri.vars,
                        label_text(LabelKind::ForEnd, k),
                        ri.ctx,
                    ) {
                        lemma_initialised_unset(
                            *body,
                            inside_loop(
                                ri.vars,
                                env,
                                label_text(LabelKind::ForPost, k),
                                label_text(LabelKind::ForEnd, k),
                            ),
                            rc.ctx,
                        );
                    }
                }
            }
            assert(unset(s, env, ctx) == unset_for(*init, cond, *body, env, ctx));
        },
        _ => {},
    }
}

/// Statements whose declarations all give their variables a value leave
/// no variable without one.
pub proof fn lemma_all_initialised_unset(
    stmts: Seq<StatementView>,
    env: CodeEnvView,
    ctx: TacContext,
)
    requires
        all_initialised(stmts),
    ensures
        unset_all(stmts, env, ctx) =~= Set::<Identifier>::empty(),
    decreases stmt_heights(stmts), 2nat,
{
    if stmts.len() > 0 {
        lemma_all_initialised_unset(stmts.drop_last(), env, ctx);
        if let Ok(front) = lower_stmts(stmts.drop_last(), env, ctx) {
            lemma_initialised_unset(
                stmts.last(),
                CodeEnvView { vars: front.vars, loops: env.loops },
                front.ctx,
            );
        }
    }
}

/// The temporaries of the variables that a function declares without a
/// value.
pub open spec fn unset_in_function(f: FunctionView) -> Set<Identifier> {
    unset_all(
        f.body,
        CodeEnvView { vars: Seq::empty(), loops: Seq::empty() },
        TacContext { next_temp: 0, next_label: 0 },
    )
}

/// Single assignment, for every function: in its code, a read of a
/// temporary comes after a write of that temporary, unless the temporary
/// belongs to a variable that the function declares without a value.
pub proof fn lemma_function_reads_covered(f: FunctionView)
    requires
        lower_function(f) is Ok,
    ensures
        covered(lower_function(f)->Ok_0, unset_in_function(f)),
{
    let env = CodeEnvView { vars: Seq::empty(), loops: Seq::empty() };
    let ctx = TacContext { next_temp: 0, next_label: 0 };
    let r = lower_stmts(f.body, env, ctx)->Ok_0;
    let base = unset_in_function(f);
    lemma_stmts_reads(f.body, env, ctx, base);
    lemma_push_none(r.code, TacInstrView::Exit(TacVal::Lit(0, default_size())), base);
}

/// Single assignment: in the code of a function whose declarations all
/// give their variables a value, every read of a temporary comes after a
/// write of that temporary.
pub proof fn lemma_function_reads(f: FunctionView)
    requires
        lower_function(f) is Ok,
        all_initialised(f.body),
    ensures
        reads_follow_writes(lower_function(f)->Ok_0),
{
    let env = CodeEnvView { vars: Seq::empty(), loops: Seq::empty() };
    let ctx = TacContext { next_temp: 0, next_label: 0 };
    lemma_function_reads_covered(f);
    lemma_all_initialised_unset(f.body, env, ctx);
    let none = unset_in_function(f);
    let code = lower_function(f)->Ok_0;
    assert forall|j: int, k: int|
        0 <= j < code.len() && 0 <= k < instr_reads(code[j]).len() implies written_before(
        code,
        j,
        #[trigger] instr_reads(code[j])[k],
    ) by {
        assert(none.contains(instr_reads(code[j])[k]) || written_before(
            code,
            j,
            instr_reads(code[j])[k],
        ));
    }
}

} // verus!
