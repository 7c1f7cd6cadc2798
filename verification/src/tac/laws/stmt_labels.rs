//! Labels of statements and of whole functions.

use vstd::prelude::*;
use crate::parser::expr_parser::ExprView;
use crate::parser::{stmt_height, stmt_heights, FunctionView, StatementView};
use crate::tac::expr::lower_expr;
use crate::tac::labels::{label_text, lemma_label_text_injective, LabelKind};
use crate::tac::laws::labels::{
    defines, jump_target, label_of, labels_distinct, labels_unique, lemma_defines_concat,
    lemma_defines_push, lemma_distinct_concat_ranges, lemma_distinct_push_label,
    lemma_distinct_push_plain, lemma_expr_labels, lemma_not_defined, lemma_targets_concat,
    lemma_targets_discharge, lemma_targets_push, lemma_targets_widen, lemma_well_labelled_concat,
    lemma_well_labelled_push, targets_defined, well_labelled,
};
use crate::tac::stmt::{
    for_code, if_code, if_else_code, inside_loop, lower_for, lower_function, lower_if,
    lower_jump_out, lower_opt_cond, lower_opt_expr, lower_stmt, lower_stmts, lower_while,
    while_code,
};
use crate::tac::{
    fresh_label, fresh_temp, BindingView, CodeEnvView, LoopLabelsView, TacContext, TacInstrView,
    TacVal,
};
use crate::types::{default_size, type_size};

verus! {

/// The labels that `break` and `continue` may jump to.
pub open spec fn loop_labels(loops: Seq<LoopLabelsView>) -> Set<Seq<char>> {
    Set::new(
        |l: Seq<char>|
            exists|i: int|
                0 <= i < loops.len() && ((#[trigger] loops[i]).continue_label == l
                    || loops[i].break_label == l),
    )
}

/// Inside one more loop, the labels of that loop may be jumped to as well.
pub proof fn lemma_loop_labels_push(
    loops: Seq<LoopLabelsView>,
    continue_label: Seq<char>,
    break_label: Seq<char>,
    l: Seq<char>,
)
    ensures
        loop_labels(loops.push(LoopLabelsView { continue_label, break_label })).contains(l)
            <==> loop_labels(loops).contains(l) || l == continue_label || l == break_label,
{
    let more = loops.push(LoopLabelsView { continue_label, break_label });
    if loop_labels(loops).contains(l) {
        let i = choose|i: int|
            0 <= i < loops.len() && ((#[trigger] loops[i]).continue_label == l
                || loops[i].break_label == l);
        assert(more[i] == loops[i]);
    }
    if l == continue_label || l == break_label {
        assert(more[loops.len() as int].continue_label == continue_label);
    }
    if loop_labels(more).contains(l) {
        let i = choose|i: int|
            0 <= i < more.len() && ((#[trigger] more[i]).continue_label == l
                || more[i].break_label == l);
        if i < loops.len() {
            assert(loops[i] == more[i]);
        }
    }
}

/// The labels of an expression whose value is not used.
pub proof fn lemma_opt_expr_labels(
    e: Option<ExprView>,
    vars: Seq<BindingView>,
    ctx: TacContext,
    outer: Set<Seq<char>>,
)
    requires
        lower_opt_expr(e, vars, ctx) is Ok,
    ensures
        well_labelled(
            lower_opt_expr(e, vars, ctx)->Ok_0.code,
            ctx.next_label,
            lower_opt_expr(e, vars, ctx)->Ok_0.ctx.next_label,
            outer,
        ),
{
    match e {
        None => {},
        Some(x) => {
            lemma_expr_labels(x, vars, None, None, ctx);
            lemma_targets_widen(lower_expr(x, vars, None, None, ctx)->Ok_0.code, Set::empty(), outer);
        },
    }
}

/// The labels of a statement come from the numbers between the counter
/// before and the counter after, each is defined once, and every jump goes
/// to a label of the statement or of a loop around it.
pub proof fn lemma_stmt_labels(s: StatementView, env: CodeEnvView, ctx: TacContext)
    requires
        lower_stmt(s, env, ctx) is Ok,
    ensures
        well_labelled(
            lower_stmt(s, env, ctx)->Ok_0.code,
            ctx.next_label,
            lower_stmt(s, env, ctx)->Ok_0.ctx.next_label,
            loop_labels(env.loops),
        ),
    decreases stmt_height(s), 1nat,
{
    let outer = loop_labels(env.loops);
    match s {
        StatementView::Empty => {},
        StatementView::Expr(e) => {
            lemma_opt_expr_labels(Some(e), env.vars, ctx, outer);
        },
        StatementView::Return(e) => {
            let r = lower_expr(e, env.vars, None, None, ctx)->Ok_0;
            lemma_opt_expr_labels(Some(e), env.vars, ctx, outer);
            lemma_well_labelled_push(
                r.code,
                TacInstrView::Exit(r.val),
                ctx.next_label,
                r.ctx.next_label,
                outer,
            );
        },
        StatementView::Declare(n, init, ty) => {
            let (id, c1) = fresh_temp(ctx, type_size(ty))->Ok_0;
            match init {
                None => {},
                Some(e) => {
                    let vars = env.vars.push(BindingView { name: n, id });
                    lemma_expr_labels(e, vars, Some(id), Some(id.1), c1);
                    lemma_targets_widen(
                        lower_expr(e, vars, Some(id), Some(id.1), c1)->Ok_0.code,
                        Set::empty(),
                        outer,
                    );
                },
            }
        },
        StatementView::Break => {
            let code = lower_jump_out(true, env, ctx)->Ok_0.code;
            assert(outer.contains(env.loops[env.loops.len() - 1].break_label));
            assert(targets_defined(code, outer));
        },
        StatementView::Continue => {
            let code = lower_jump_out(false, env, ctx)->Ok_0.code;
            assert(outer.contains(env.loops[env.loops.len() - 1].continue_label));
            assert(targets_defined(code, outer));
        },
        StatementView::CompoundStmt(stmts) => {
            lemma_stmts_labels(stmts, env, ctx);
        },
        StatementView::If(c, t, e) => lemma_if_labels(c, *t, e, env, ctx),
        StatementView::While(c, body) => lemma_while_labels(c, *body, env, ctx),
        StatementView::For(init, cond, post, body) => lemma_for_labels(
            *init,
            cond,
            post,
            *body,
            env,
            ctx,
        ),
    }
}

/// The labels of a list of statements are those of the statements.
pub proof fn lemma_stmts_labels(stmts: Seq<StatementView>, env: CodeEnvView, ctx: TacContext)
    requires
        lower_stmts(stmts, env, ctx) is Ok,
    ensures
        well_labelled(
            lower_stmts(stmts, env, ctx)->Ok_0.code,
            ctx.next_label,
            lower_stmts(stmts, env, ctx)->Ok_0.ctx.next_label,
            loop_labels(env.loops),
        ),
    decreases stmt_heights(stmts), 2nat,
{
    if stmts.len() > 0 {
        let front = lower_stmts(stmts.drop_last(), env, ctx)->Ok_0;
        let inner = CodeEnvView { vars: front.vars, loops: env.loops };
        let r = lower_stmt(stmts.last(), inner, front.ctx)->Ok_0;
        lemma_stmts_labels(stmts.drop_last(), env, ctx);
        lemma_stmt_labels(stmts.last(), inner, front.ctx);
        lemma_well_labelled_concat(
            front.code,
            r.code,
            ctx.next_label,
            front.ctx.next_label,
            r.ctx.next_label,
            loop_labels(env.loops),
        );
    }
}

/// A stage in putting the code of a construct together: the labels so
/// far are distinct and come from numbers from `k` up to `cur`; of the
/// labels with the number `k`, which are those of the construct itself,
/// exactly the kinds in `glue` are defined; and every jump goes to a label
/// defined so far or in `more`.
pub open spec fn assembling(
    prefix: Seq<TacInstrView>,
    k: u64,
    cur: u64,
    glue: Set<LabelKind>,
    more: Set<Seq<char>>,
) -> bool {
    &&& k < cur
    &&& labels_distinct(prefix, k, cur)
    &&& forall|kind: LabelKind|
        defines(prefix, #[trigger] label_text(kind, k)) <==> glue.contains(kind)
    &&& targets_defined(prefix, more)
}

/// Nothing is put together yet.
pub proof fn lemma_asm_start(k: u64, more: Set<Seq<char>>)
    requires
        k < u64::MAX,
    ensures
        assembling(Seq::empty(), k, (k + 1) as u64, Set::empty(), more),
{
}

/// The code of a part follows, with labels from the numbers after those
/// used so far.
pub proof fn lemma_asm_sub(
    prefix: Seq<TacInstrView>,
    c: Seq<TacInstrView>,
    k: u64,
    cur: u64,
    next: u64,
    glue: Set<LabelKind>,
    more: Set<Seq<char>>,
    outer: Set<Seq<char>>,
)
    requires
        assembling(prefix, k, cur, glue, more),
        well_labelled(c, cur, next, outer),
        forall|l: Seq<char>| outer.contains(l) ==> more.contains(l),
    ensures
        assembling(prefix + c, k, next, glue, more),
{
    lemma_distinct_concat_ranges(prefix, c, k, cur, cur, next, k, next);
    lemma_targets_widen(c, outer, more);
    lemma_targets_concat(prefix, c, more);
    assert forall|kind: LabelKind|
        defines(prefix + c, #[trigger] label_text(kind, k)) <==> glue.contains(kind) by {
        lemma_defines_concat(prefix, c, label_text(kind, k));
        lemma_not_defined(c, cur, next, kind, k);
    }
}

/// An instruction that is no label follows.
pub proof fn lemma_asm_plain(
    prefix: Seq<TacInstrView>,
    x: TacInstrView,
    k: u64,
    cur: u64,
    glue: Set<LabelKind>,
    more: Set<Seq<char>>,
)
    requires
        assembling(prefix, k, cur, glue, more),
        label_of(x) is None,
        jump_target(x) matches Some(l) ==> more.contains(l),
    ensures
        assembling(prefix.push(x), k, cur, glue, more),
{
    lemma_distinct_push_plain(prefix, x, k, cur);
    lemma_targets_push(prefix, x, more);
    assert forall|kind: LabelKind|
        defines(prefix.push(x), #[trigger] label_text(kind, k)) <==> glue.contains(kind) by {
        lemma_defines_push(prefix, x, label_text(kind, k));
    }
}

/// A label of the construct follows, of a kind that is not defined yet.
pub proof fn lemma_asm_label(
    prefix: Seq<TacInstrView>,
    kind: LabelKind,
    k: u64,
    cur: u64,
    glue: Set<LabelKind>,
    more: Set<Seq<char>>,
)
    requires
        assembling(prefix, k, cur, glue, more),
        !glue.contains(kind),
    ensures
        assembling(
            prefix.push(TacInstrView::Label(label_text(kind, k))),
            k,
            cur,
            glue.insert(kind),
            more,
        ),
{
    let x = TacInstrView::Label(label_text(kind, k));
    lemma_distinct_push_label(prefix, kind, k, k, cur);
    lemma_targets_push(prefix, x, more);
    assert forall|other: LabelKind|
        defines(prefix.push(x), #[trigger] label_text(other, k)) <==> glue.insert(kind).contains(
            other,
        ) by {
        lemma_defines_push(prefix, x, label_text(other, k));
        if label_text(other, k) == label_text(kind, k) {
            lemma_label_text_injective(other, k, kind, k);
        }
    }
}

/// The construct is complete: every label of its own that a jump may go
/// to is defined.
pub proof fn lemma_asm_finish(
    code: Seq<TacInstrView>,
    k: u64,
    cur: u64,
    glue: Set<LabelKind>,
    more: Set<Seq<char>>,
    outer: Set<Seq<char>>,
)
    requires
        assembling(code, k, cur, glue, more),
        forall|l: Seq<char>|
            more.contains(l) ==> outer.contains(l) || exists|kind: LabelKind|
                glue.contains(kind) && l == #[trigger] label_text(kind, k),
    ensures
        well_labelled(code, k, cur, outer),
{
    assert forall|l: Seq<char>| more.contains(l) implies outer.contains(l) || defines(code, l) by {
        if !outer.contains(l) {
            let kind = choose|kind: LabelKind|
                glue.contains(kind) && l == #[trigger] label_text(kind, k);
            assert(defines(code, label_text(kind, k)));
        }
    }
    lemma_targets_discharge(code, outer, more);
}

/// The labels of an `if` are new, and each is defined once in its code.
#[verifier::rlimit(40)]
pub proof fn lemma_if_labels(
    c: ExprView,
    t: StatementView,
    e: Option<Box<StatementView>>,
    env: CodeEnvView,
    ctx: TacContext,
)
    requires
        lower_if(c, t, e, env, ctx) is Ok,
    ensures
        well_labelled(
            lower_if(c, t, e, env, ctx)->Ok_0.code,
            ctx.next_label,
            lower_if(c, t, e, env, ctx)->Ok_0.ctx.next_label,
            loop_labels(env.loops),
        ),
    decreases
            1 + stmt_height(t) + match e {
                Some(x) => stmt_height(*x),
                None => 0,
            },
            0nat,
{
    let outer = loop_labels(env.loops);
    let (k, c1) = fresh_label(ctx)->Ok_0;
    let rc = lower_expr(c, env.vars, None, None, c1)->Ok_0;
    let rt = lower_stmt(t, env, rc.ctx)->Ok_0;
    lemma_expr_labels(c, env.vars, None, None, c1);
    lemma_stmt_labels(t, env, rc.ctx);
    let lo = c1.next_label;
    let mid = rc.ctx.next_label;
    let m2 = rt.ctx.next_label;
    let end = label_text(LabelKind::IfEnd, k);
    let els = label_text(LabelKind::IfElse, k);
    let none = Set::<LabelKind>::empty();
    match e {
        None => {
            let more = Set::new(|l: Seq<char>| outer.contains(l) || l == end);
            let seg0 = Seq::<TacInstrView>::empty() + rc.code;
            let seg1 = seg0.push(TacInstrView::JmpZero(end, rc.val));
            let seg2 = seg1 + rt.code;
            let seg3 = seg2.push(TacInstrView::Label(end));
            assert(if_code(k, rc, rt.code) =~= seg3);
            lemma_asm_start(k, more);
            lemma_asm_sub(Seq::empty(), rc.code, k, lo, mid, none, more, Set::empty());
            lemma_asm_plain(rc.code, TacInstrView::JmpZero(end, rc.val), k, mid, none, more);
            assert(seg0 =~= rc.code);
            lemma_asm_sub(seg1, rt.code, k, mid, m2, none, more, outer);
            lemma_asm_label(seg2, LabelKind::IfEnd, k, m2, none, more);
            lemma_asm_finish(seg3, k, m2, none.insert(LabelKind::IfEnd), more, outer);
        },
        Some(x) => {
            let re = lower_stmt(*x, env, rt.ctx)->Ok_0;
            lemma_stmt_labels(*x, env, rt.ctx);
            let hi = re.ctx.next_label;
            let more = Set::new(|l: Seq<char>| outer.contains(l) || l == end || l == els);
            let seg0 = Seq::<TacInstrView>::empty() + rc.code;
            let seg1 = seg0.push(TacInstrView::JmpZero(els, rc.val));
            let seg2 = seg1 + rt.code;
            let seg3 = seg2.push(TacInstrView::Jmp(end));
            let seg4 = seg3.push(TacInstrView::Label(els));
            let seg5 = seg4 + re.code;
            let seg6 = seg5.push(TacInstrView::Label(end));
            assert(if_else_code(k, rc, rt.code, re.code) =~= seg6);
            let g1 = none.insert(LabelKind::IfElse);
            lemma_asm_start(k, more);
            lemma_asm_sub(Seq::empty(), rc.code, k, lo, mid, none, more, Set::empty());
            assert(seg0 =~= rc.code);
            lemma_asm_plain(seg0, TacInstrView::JmpZero(els, rc.val), k, mid, none, more);
            lemma_asm_sub(seg1, rt.code, k, mid, m2, none, more, outer);
            lemma_asm_plain(seg2, TacInstrView::Jmp(end), k, m2, none, more);
            lemma_asm_label(seg3, LabelKind::IfElse, k, m2, none, more);
            lemma_asm_sub(seg4, re.code, k, m2, hi, g1, more, outer);
            lemma_asm_label(seg5, LabelKind::IfEnd, k, hi, g1, more);
            lemma_asm_finish(seg6, k, hi, g1.insert(LabelKind::IfEnd), more, outer);
        },
    }
}

/// The labels of a `while` are new, and each is defined once in its code.
#[verifier::rlimit(40)]
pub proof fn lemma_while_labels(c: ExprView, body: StatementView, env: CodeEnvView, ctx: TacContext)
    requires
        lower_while(c, body, env, ctx) is Ok,
    ensures
        well_labelled(
            lower_while(c, body, env, ctx)->Ok_0.code,
            ctx.next_label,
            lower_while(c, body, env, ctx)->Ok_0.ctx.next_label,
            loop_labels(env.loops),
        ),
    decreases 1 + stmt_height(body), 0nat,
{
    let outer = loop_labels(env.loops);
    let (k, c1) = fresh_label(ctx)->Ok_0;
    let start = label_text(LabelKind::WhileStart, k);
    let end = label_text(LabelKind::WhileEnd, k);
    let rc = lower_expr(c, env.vars, None, None, c1)->Ok_0;
    let inner = inside_loop(env.vars, env, start, end);
    let rb = lower_stmt(body, inner, rc.ctx)->Ok_0;
    lemma_expr_labels(c, env.vars, None, None, c1);
    lemma_stmt_labels(body, inner, rc.ctx);
    let lo = c1.next_label;
    let mid = rc.ctx.next_label;
    let hi = rb.ctx.next_label;
    let more = Set::new(|l: Seq<char>| outer.contains(l) || l == start || l == end);
    assert forall|l: Seq<char>| loop_labels(inner.loops).contains(l) implies more.contains(l) by {
        lemma_loop_labels_push(env.loops, start, end, l);
    }
    let none = Set::<LabelKind>::empty();
    let g1 = none.insert(LabelKind::WhileStart);
    let seg0 = Seq::<TacInstrView>::empty().push(TacInstrView::Label(start));
    let seg1 = seg0 + rc.code;
    let seg2 = seg1.push(TacInstrView::JmpZero(end, rc.val));
    let seg3 = seg2 + rb.code;
    let seg4 = seg3.push(TacInstrView::Jmp(start));
    let seg5 = seg4.push(TacInstrView::Label(end));
    assert(while_code(k, rc, rb.code) =~= seg5);
    lemma_asm_start(k, more);
    lemma_asm_label(Seq::empty(), LabelKind::WhileStart, k, lo, none, more);
    lemma_asm_sub(seg0, rc.code, k, lo, mid, g1, more, Set::empty());
    lemma_asm_plain(seg1, TacInstrView::JmpZero(end, rc.val), k, mid, g1, more);
    lemma_asm_sub(seg2, rb.code, k, mid, hi, g1, more, loop_labels(inner.loops));
    lemma_asm_plain(seg3, TacInstrView::Jmp(start), k, hi, g1, more);
    lemma_asm_label(seg4, LabelKind::WhileEnd, k, hi, g1, more);
    lemma_asm_finish(seg5, k, hi, g1.insert(LabelKind::WhileEnd), more, outer);
}

/// The labels of the condition of a `for`, which may be absent.
pub proof fn lemma_opt_cond_labels(
    cond: Option<ExprView>,
    vars: Seq<BindingView>,
    exit: Seq<char>,
    ctx: TacContext,
)
    requires
        lower_opt_cond(cond, vars, exit, ctx) is Ok,
    ensures
        well_labelled(
            lower_opt_cond(cond, vars, exit, ctx)->Ok_0.code,
            ctx.next_label,
            lower_opt_cond(cond, vars, exit, ctx)->Ok_0.ctx.next_label,
            Set::empty().insert(exit),
        ),
{
    match cond {
        None => {},
        Some(c) => {
            let r = lower_expr(c, vars, None, None, ctx)->Ok_0;
            lemma_expr_labels(c, vars, None, None, ctx);
            lemma_targets_widen(r.code, Set::empty(), Set::empty().insert(exit));
            lemma_distinct_push_plain(
                r.code,
                TacInstrView::JmpZero(exit, r.val),
                ctx.next_label,
                r.ctx.next_label,
            );
            lemma_targets_push(
                r.code,
                TacInstrView::JmpZero(exit, r.val),
                Set::empty().insert(exit),
            );
        },
    }
}

/// The labels of a `for` are new, and each is defined once in its code.
#[verifier::rlimit(60)]
pub proof fn lemma_for_labels(
    init: StatementView,
    cond: Option<ExprView>,
    post: Option<ExprView>,
    body: StatementView,
    env: CodeEnvView,
    ctx: TacContext,
)
    requires
        lower_for(init, cond, post, body, env, ctx) is Ok,
    ensures
        well_labelled(
            lower_for(init, cond, post, body, env, ctx)->Ok_0.code,
            ctx.next_label,
            lower_for(init, cond, post, body, env, ctx)->Ok_0.ctx.next_label,
            loop_labels(env.loops),
        ),
    decreases 1 + stmt_height(init) + stmt_height(body), 0nat,
{
    let outer = loop_labels(env.loops);
    let (k, c1) = fresh_label(ctx)->Ok_0;
    let start = label_text(LabelKind::ForStart, k);
    let step = label_text(LabelKind::ForPost, k);
    let end = label_text(LabelKind::ForEnd, k);
    let ri = lower_stmt(init, env, c1)->Ok_0;
    let rc = lower_opt_cond(cond, ri.vars, end, ri.ctx)->Ok_0;
    let inner = inside_loop(ri.vars, env, step, end);
    let rb = lower_stmt(body, inner, rc.ctx)->Ok_0;
    let rp = lower_opt_expr(post, ri.vars, rb.ctx)->Ok_0;
    lemma_stmt_labels(init, env, c1);
    lemma_opt_cond_labels(cond, ri.vars, end, ri.ctx);
    lemma_stmt_labels(body, inner, rc.ctx);
    lemma_opt_expr_labels(post, ri.vars, rb.ctx, Set::empty());
    let lo = c1.next_label;
    let m1 = ri.ctx.next_label;
    let m2 = rc.ctx.next_label;
    let m3 = rb.ctx.next_label;
    let hi = rp.ctx.next_label;
    let more = Set::new(
        |l: Seq<char>| outer.contains(l) || l == start || l == step || l == end,
    );
    assert forall|l: Seq<char>| loop_labels(inner.loops).contains(l) implies more.contains(l) by {
        lemma_loop_labels_push(env.loops, step, end, l);
    }
    let none = Set::<LabelKind>::empty();
    let g1 = none.insert(LabelKind::ForStart);
    let g2 = g1.insert(LabelKind::ForPost);
    let seg0 = Seq::<TacInstrView>::empty() + ri.code;
    let seg1 = seg0.push(TacInstrView::Label(start));
    let seg2 = seg1 + rc.code;
    let seg3 = seg2 + rb.code;
    let seg4 = seg3.push(TacInstrView::Label(step));
    let seg5 = seg4 + rp.code;
    let seg6 = seg5.push(TacInstrView::Jmp(start));
    let seg7 = seg6.push(TacInstrView::Label(end));
    assert(for_code(k, ri.code, rc.code, rb.code, rp.code) =~= seg7);
    lemma_asm_start(k, more);
    lemma_asm_sub(Seq::empty(), ri.code, k, lo, m1, none, more, outer);
    lemma_asm_label(seg0, LabelKind::ForStart, k, m1, none, more);
    lemma_asm_sub(seg1, rc.code, k, m1, m2, g1, more, Set::empty().insert(end));
    lemma_asm_sub(seg2, rb.code, k, m2, m3, g1, more, loop_labels(inner.loops));
    lemma_asm_label(seg3, LabelKind::ForPost, k, m3, g1, more);
    lemma_asm_sub(seg4, rp.code, k, m3, hi, g2, more, Set::empty());
    lemma_asm_plain(seg5, TacInstrView::Jmp(start), k, hi, g2, more);
    lemma_asm_label(seg6, LabelKind::ForEnd, k, hi, g2, more);
    lemma_asm_finish(seg7, k, hi, g2.insert(LabelKind::ForEnd), more, outer);
}

/// In the code of a function, no label is defined twice, and every jump
/// goes to a label that the code defines.
pub proof fn lemma_function_labels(f: FunctionView)
    requires
        lower_function(f) is Ok,
    ensures
        labels_unique(lower_function(f)->Ok_0),
        targets_defined(lower_function(f)->Ok_0, Set::empty()),
{
    let env = CodeEnvView { vars: Seq::empty(), loops: Seq::empty() };
    let ctx = TacContext { next_temp: 0, next_label: 0 };
    let r = lower_stmts(f.body, env, ctx)->Ok_0;
    lemma_stmts_labels(f.body, env, ctx);
    lemma_targets_widen(r.code, loop_labels(env.loops), Set::empty());
    lemma_well_labelled_push(
        r.code,
        TacInstrView::Exit(TacVal::Lit(0, default_size())),
        0,
        r.ctx.next_label,
        Set::empty(),
    );
}

} // verus!
