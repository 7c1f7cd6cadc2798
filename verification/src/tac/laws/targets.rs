//! With a target, the last write of the code of an expression lands in
//! the target.

use vstd::prelude::*;
use crate::parser::expr_parser::{expr_height, BinOp, ExprView, UnOp};
use crate::tac::expr::{
    deliver, is_short_circuit, lower_args, lower_assign, lower_binop, lower_call, lower_expr,
    lower_short_circuit, lower_ternary, lower_unop, pair_size, pick_target, short_circuit_code,
    size_or, size_or_default, step_instr, ternary_code, ExprTac,
};
use crate::tac::labels::{label_text, LabelKind};
use crate::tac::{
    fresh_label, fresh_temp, instr_writes, lookup, BindingView, Identifier, TacContext,
    TacInstrView, TacVal,
};
use crate::types::VarSize;

verus! {

/// The temporary that the last instruction of `code` that writes any
/// temporary writes, if an instruction of `code` writes one.
pub open spec fn last_write(code: Seq<TacInstrView>) -> Option<Identifier>
    decreases code.len(),
{
    if code.len() == 0 {
        None
    } else {
        match instr_writes(code.last()) {
            Some(id) => Some(id),
            None => last_write(code.drop_last()),
        }
    }
}

/// After one more instruction, the last write is that of the instruction
/// if it writes, else what it was.
pub proof fn lemma_last_write_push(c: Seq<TacInstrView>, x: TacInstrView)
    ensures
        last_write(c.push(x)) == match instr_writes(x) {
            Some(id) => Some(id),
            None => last_write(c),
        },
{
    assert(c.push(x).drop_last() =~= c);
}

/// The last write of code followed by more code is the last write of the
/// latter if it writes at all, else that of the former.
pub proof fn lemma_last_write_concat(c1: Seq<TacInstrView>, c2: Seq<TacInstrView>)
    ensures
        last_write(c1 + c2) == if last_write(c2) is Some {
            last_write(c2)
        } else {
            last_write(c1)
        },
    decreases c2.len(),
{
    if c2.len() == 0 {
        assert(c1 + c2 =~= c1);
    } else {
        assert((c1 + c2).drop_last() =~= c1 + c2.drop_last());
        lemma_last_write_concat(c1, c2.drop_last());
    }
}

/// What is delivered to a target ends by writing the target.
pub proof fn lemma_deliver_target(
    code: Seq<TacInstrView>,
    val: TacVal,
    t: Identifier,
    ctx: TacContext,
)
    ensures
        deliver(code, val, Some(t), ctx).val == TacVal::Var(t),
        last_write(deliver(code, val, Some(t), ctx).code) == Some(t),
{
    lemma_last_write_push(code, TacInstrView::Copy(t, val));
}

/// The codes of the three parts of a ternary inside its code: the
/// condition and the two arms, and the temporary that holds the result.
pub open spec fn ternary_parts(
    c: ExprView,
    x: ExprView,
    y: ExprView,
    vars: Seq<BindingView>,
    target: Option<Identifier>,
    hint: Option<VarSize>,
    ctx: TacContext,
) -> (Identifier, ExprTac, ExprTac, ExprTac) {
    let size = pair_size(x, y, vars)->Ok_0;
    let (t, c1) = pick_target(target, size_or_default(size_or(size, hint)), ctx)->Ok_0;
    let c2 = fresh_label(c1)->Ok_0.1;
    let rc = lower_expr(c, vars, None, None, c2)->Ok_0;
    let rx = lower_expr(x, vars, Some(t), Some(t.1), rc.ctx)->Ok_0;
    let ry = lower_expr(y, vars, Some(t), Some(t.1), rx.ctx)->Ok_0;
    (t, rc, rx, ry)
}

/// The target rule: whenever an expression is lowered with a target, the
/// value of the expression is the target, and the last instruction of the
/// code that writes a temporary writes the target.
pub proof fn lemma_expr_target(
    e: ExprView,
    vars: Seq<BindingView>,
    t: Identifier,
    hint: Option<VarSize>,
    ctx: TacContext,
)
    requires
        lower_expr(e, vars, Some(t), hint, ctx) is Ok,
    ensures
        lower_expr(e, vars, Some(t), hint, ctx)->Ok_0.val == TacVal::Var(t),
        last_write(lower_expr(e, vars, Some(t), hint, ctx)->Ok_0.code) == Some(t),
    decreases expr_height(e), 1nat,
{
    match e {
        ExprView::IntLiteral(v) => {
            lemma_deliver_target(Seq::empty(), TacVal::Lit(v as i64, t.1), t, ctx);
        },
        ExprView::Var(n) => {
            let id = lookup(vars, n)->Ok_0;
            lemma_deliver_target(Seq::empty(), TacVal::Var(id), t, ctx);
        },
        ExprView::Assign(n, rhs) => lemma_assign_target(n, *rhs, vars, t, ctx),
        ExprView::UnOp(op, inner) => lemma_unop_target(op, *inner, vars, t, hint, ctx),
        ExprView::BinOp(op, a, b) => lemma_binop_target(op, *a, *b, vars, t, hint, ctx),
        ExprView::Ternary(c, x, y) => {
            lemma_ternary_arms(*c, *x, *y, vars, Some(t), hint, ctx);
        },
        ExprView::FunctionCall(f, args) => lemma_call_target(f, args, vars, t, ctx),
        ExprView::PostfixInc(n) => lemma_postfix_target(n, BinOp::Plus, vars, t, ctx),
        ExprView::PostfixDec(n) => lemma_postfix_target(n, BinOp::Minus, vars, t, ctx),
        ExprView::PrefixInc(n) => lemma_prefix_target(n, BinOp::Plus, vars, t, ctx),
        ExprView::PrefixDec(n) => lemma_prefix_target(n, BinOp::Minus, vars, t, ctx),
        ExprView::ArrInitExpr(_) => {},
    }
}

/// An assignment with a target ends by copying the variable to the
/// target.
pub proof fn lemma_assign_target(
    n: Seq<char>,
    rhs: ExprView,
    vars: Seq<BindingView>,
    t: Identifier,
    ctx: TacContext,
)
    ensures
        lower_assign(n, rhs, vars, Some(t), ctx) matches Ok(r) ==> r.val == TacVal::Var(t)
            && last_write(r.code) == Some(t),
{
    if let Ok(id) = lookup(vars, n) {
        if let Ok(r) = lower_expr(rhs, vars, Some(id), Some(id.1), ctx) {
            lemma_deliver_target(r.code, TacVal::Var(id), t, r.ctx);
        }
    }
}

/// A unary operation with a target ends by writing the target.
pub proof fn lemma_unop_target(
    op: UnOp,
    inner: ExprView,
    vars: Seq<BindingView>,
    t: Identifier,
    hint: Option<VarSize>,
    ctx: TacContext,
)
    ensures
        lower_unop(op, inner, vars, Some(t), hint, ctx) matches Ok(r) ==> r.val == TacVal::Var(t)
            && last_write(r.code) == Some(t),
{
    if let Ok(r) = lower_expr(inner, vars, None, hint, ctx) {
        lemma_last_write_push(r.code, TacInstrView::UnOp(t, r.val, op));
    }
}

/// A binary operation with a target ends by writing the target.
pub proof fn lemma_binop_target(
    op: BinOp,
    a: ExprView,
    b: ExprView,
    vars: Seq<BindingView>,
    t: Identifier,
    hint: Option<VarSize>,
    ctx: TacContext,
)
    ensures
        lower_binop(op, a, b, vars, Some(t), hint, ctx) matches Ok(r) ==> r.val == TacVal::Var(t)
            && last_write(r.code) == Some(t),
{
    if let Ok(size) = pair_size(a, b, vars) {
        if is_short_circuit(op) {
            if let Ok((k, c2)) = fresh_label(ctx) {
                if let Ok(ra) = lower_expr(a, vars, None, None, c2) {
                    if let Ok(rb) = lower_expr(b, vars, None, None, ra.ctx) {
                        lemma_short_circuit_target(op, t, k, ra, rb);
                        assert(lower_short_circuit(op, a, b, vars, Some(t), hint, ctx)->Ok_0.code
                            == short_circuit_code(op, t, k, ra, rb));
                    }
                }
            }
        } else {
            if let Ok(ra) = lower_expr(a, vars, None, size_or(size, hint), ctx) {
                if let Ok(rb) = lower_expr(b, vars, None, size_or(size, hint), ra.ctx) {
                    lemma_last_write_push(
                        ra.code + rb.code,
                        TacInstrView::BinOp(t, ra.val, rb.val, op),
                    );
                }
            }
        }
    }
}

/// A call with a target ends by storing what the function returns in the
/// target.
pub proof fn lemma_call_target(
    f: Seq<char>,
    args: Seq<ExprView>,
    vars: Seq<BindingView>,
    t: Identifier,
    ctx: TacContext,
)
    ensures
        lower_call(f, args, vars, Some(t), ctx) matches Ok(r) ==> r.val == TacVal::Var(t)
            && last_write(r.code) == Some(t),
{
    if let Ok(r) = lower_args(args, vars, ctx) {
        lemma_last_write_push(r.code, TacInstrView::Call(f, r.vals, Some(t)));
    }
}

/// The code of `a && b` and of `a || b` ends by writing the result.
pub proof fn lemma_short_circuit_target(op: BinOp, t: Identifier, k: u64, ra: ExprTac, rb: ExprTac)
    requires
        is_short_circuit(op),
    ensures
        last_write(short_circuit_code(op, t, k, ra, rb)) == Some(t),
{
    let code = short_circuit_code(op, t, k, ra, rb);
    let n = code.len() as int;
    let front = code.take(n - 2);
    assert(code[n - 1] is Label);
    assert(code[n - 2] is Copy);
    assert(instr_writes(code[n - 2]) == Some(t));
    assert(code =~= front.push(code[n - 2]).push(code[n - 1]));
    lemma_last_write_push(front, code[n - 2]);
    lemma_last_write_push(front.push(code[n - 2]), code[n - 1]);
}

/// A postfix increment or decrement with a target ends by writing the
/// target.
pub proof fn lemma_postfix_target(
    n: Seq<char>,
    op: BinOp,
    vars: Seq<BindingView>,
    t: Identifier,
    ctx: TacContext,
)
    ensures
        crate::tac::expr::lower_postfix(n, op, vars, Some(t), ctx) matches Ok(r) ==> r.val
            == TacVal::Var(t) && last_write(r.code) == Some(t),
{
    if let Ok(id) = lookup(vars, n) {
        if let Ok((kept, c)) = fresh_temp(ctx, id.1) {
            lemma_deliver_target(
                seq![TacInstrView::Copy(kept, TacVal::Var(id)), step_instr(id, op)],
                TacVal::Var(kept),
                t,
                c,
            );
        }
    }
}

/// A prefix increment or decrement with a target ends by writing the
/// target.
pub proof fn lemma_prefix_target(
    n: Seq<char>,
    op: BinOp,
    vars: Seq<BindingView>,
    t: Identifier,
    ctx: TacContext,
)
    ensures
        crate::tac::expr::lower_prefix(n, op, vars, Some(t), ctx) matches Ok(r) ==> r.val
            == TacVal::Var(t) && last_write(r.code) == Some(t),
{
    if let Ok(id) = lookup(vars, n) {
        let step = seq![step_instr(id, op)];
        if t == id {
            assert(instr_writes(step.last()) == Some(id));
        } else {
            lemma_deliver_target(step, TacVal::Var(id), t, ctx);
        }
    }
}

/// Both arms of a ternary end by writing the result, and so does the
/// ternary: whichever arm runs, the last write before the end of the code
/// lands in the temporary that holds the result.
pub proof fn lemma_ternary_arms(
    c: ExprView,
    x: ExprView,
    y: ExprView,
    vars: Seq<BindingView>,
    target: Option<Identifier>,
    hint: Option<VarSize>,
    ctx: TacContext,
)
    requires
        lower_ternary(c, x, y, vars, target, hint, ctx) is Ok,
    ensures
        ({
            let r = lower_ternary(c, x, y, vars, target, hint, ctx)->Ok_0;
            let (t, rc, rx, ry) = ternary_parts(c, x, y, vars, target, hint, ctx);
            &&& r.val == TacVal::Var(t)
            &&& target matches Some(given) ==> t == given
            &&& last_write(rx.code) == Some(t)
            &&& last_write(ry.code) == Some(t)
            &&& last_write(r.code) == Some(t)
        }),
    decreases 1 + expr_height(c) + expr_height(x) + expr_height(y), 0nat,
{
    let size = pair_size(x, y, vars)->Ok_0;
    let (t, c1) = pick_target(target, size_or_default(size_or(size, hint)), ctx)->Ok_0;
    let (k, c2) = fresh_label(c1)->Ok_0;
    let (_, rc, rx, ry) = ternary_parts(c, x, y, vars, target, hint, ctx);
    lemma_expr_target(x, vars, t, Some(t.1), rc.ctx);
    lemma_expr_target(y, vars, t, Some(t.1), rx.ctx);
    let end = TacInstrView::Label(label_text(LabelKind::TernaryEnd, k));
    let front = rc.code.push(
        TacInstrView::JmpZero(label_text(LabelKind::TernaryFalse, k), rc.val),
    ) + rx.code + seq![
        TacInstrView::Jmp(label_text(LabelKind::TernaryEnd, k)),
        TacInstrView::Label(label_text(LabelKind::TernaryFalse, k)),
    ];
    assert(ternary_code(k, rc, rx, ry) == front + ry.code.push(end));
    lemma_last_write_push(ry.code, end);
    lemma_last_write_concat(front, ry.code.push(end));
}

} // verus!
