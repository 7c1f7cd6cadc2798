//! Temporaries are written before they are read.

use vstd::prelude::*;
use crate::codegen::written_before;
use crate::parser::expr_parser::{expr_height, heights, BinOp, ExprView, UnOp};
use crate::tac::expr::{
    deliver, expr_size, is_short_circuit, lower_args, lower_assign, lower_binop, lower_call,
    lower_expr, lower_postfix, lower_prefix, lower_short_circuit, lower_ternary, lower_unop,
    pair_size, pick_target, short_circuit_code, size_or, size_or_default, step_instr, ternary_code,
    ExprTac,
};
use crate::tac::labels::{label_text, LabelKind};
use crate::tac::{
    fresh_label, fresh_temp, instr_reads, instr_writes, lookup, resolve, val_reads, vals_reads,
    BindingView, Identifier, TacContext, TacInstrView, TacVal,
};
use crate::types::{default_size, VarSize};

verus! {

/// Whether the expression names the variable `m` anywhere.
pub open spec fn mentions(e: ExprView, m: Seq<char>) -> bool
    decreases e,
{
    match e {
        ExprView::IntLiteral(_) => false,
        ExprView::Var(n) => n == m,
        ExprView::Assign(n, rhs) => n == m || mentions(*rhs, m),
        ExprView::UnOp(_, inner) => mentions(*inner, m),
        ExprView::BinOp(_, a, b) => mentions(*a, m) || mentions(*b, m),
        ExprView::Ternary(c, x, y) => mentions(*c, m) || mentions(*x, m) || mentions(*y, m),
        ExprView::FunctionCall(_, args) => mentions_any(args, m),
        ExprView::PostfixDec(n) => n == m,
        ExprView::PostfixInc(n) => n == m,
        ExprView::PrefixDec(n) => n == m,
        ExprView::PrefixInc(n) => n == m,
        ExprView::ArrInitExpr(elems) => mentions_any(elems, m),
    }
}

/// Whether one of the expressions names the variable `m`.
pub open spec fn mentions_any(es: Seq<ExprView>, m: Seq<char>) -> bool
    decreases es,
{
    if es.len() == 0 {
        false
    } else {
        mentions_any(es.drop_last(), m) || mentions(es.last(), m)
    }
}

/// The temporaries of the variables that the expression names.
pub open spec fn variables_of(e: ExprView, vars: Seq<BindingView>) -> Set<Identifier> {
    Set::new(|id: Identifier| exists|m: Seq<char>| mentions(e, m) && resolve(vars, m) == Some(id))
}

/// The temporaries of the variables that the expressions name.
pub open spec fn variables_of_any(es: Seq<ExprView>, vars: Seq<BindingView>) -> Set<Identifier> {
    Set::new(
        |id: Identifier| exists|m: Seq<char>| mentions_any(es, m) && resolve(vars, m) == Some(id),
    )
}

/// Some instruction of `code` writes `id`.
pub open spec fn writes_in(code: Seq<TacInstrView>, id: Identifier) -> bool {
    written_before(code, code.len() as int, id)
}

/// Every read in `code` of a temporary that is not in `base` comes after a
/// write of it in `code`.
pub open spec fn covered(code: Seq<TacInstrView>, base: Set<Identifier>) -> bool {
    forall|j: int, k: int|
        0 <= j < code.len() && 0 <= k < instr_reads(code[j]).len() ==> base.contains(
            #[trigger] instr_reads(code[j])[k],
        ) || written_before(code, j, instr_reads(code[j])[k])
}

/// The value may be read after `code`: it is a constant, or a temporary
/// that is in `base` or that `code` writes.
pub open spec fn known(v: TacVal, code: Seq<TacInstrView>, base: Set<Identifier>) -> bool {
    v matches TacVal::Var(id) ==> base.contains(id) || writes_in(code, id)
}

/// The code of an expression reads nothing too early, its value may be
/// read after it, and with a target the value is the target, written by
/// the code.
pub open spec fn reads_ok(r: ExprTac, target: Option<Identifier>, base: Set<Identifier>) -> bool {
    &&& covered(r.code, base)
    &&& known(r.val, r.code, base)
    &&& target matches Some(t) ==> r.val == TacVal::Var(t) && writes_in(r.code, t)
}

/// A concatenation writes what its parts write.
pub proof fn lemma_writes_concat(c1: Seq<TacInstrView>, c2: Seq<TacInstrView>, id: Identifier)
    ensures
        writes_in(c1 + c2, id) <==> writes_in(c1, id) || writes_in(c2, id),
{
    let c = c1 + c2;
    if writes_in(c1, id) {
        let i = choose|i: int|
            0 <= i < c1.len() && i < c1.len() && #[trigger] instr_writes(c1[i]) == Some(id);
        assert(instr_writes(c[i]) == Some(id));
    }
    if writes_in(c2, id) {
        let i = choose|i: int|
            0 <= i < c2.len() && i < c2.len() && #[trigger] instr_writes(c2[i]) == Some(id);
        assert(instr_writes(c[c1.len() + i]) == Some(id));
    }
    if writes_in(c, id) {
        let i = choose|i: int|
            0 <= i < c.len() && i < c.len() && #[trigger] instr_writes(c[i]) == Some(id);
        if i < c1.len() {
            assert(instr_writes(c1[i]) == Some(id));
        } else {
            assert(instr_writes(c2[i - c1.len()]) == Some(id));
        }
    }
}

/// Code with one more instruction writes what the code writes and what the
/// instruction writes.
pub proof fn lemma_writes_push(c: Seq<TacInstrView>, x: TacInstrView, id: Identifier)
    ensures
        writes_in(c.push(x), id) <==> writes_in(c, id) || instr_writes(x) == Some(id),
{
    lemma_writes_concat(c, seq![x], id);
    assert(c.push(x) =~= c + seq![x]);
    if instr_writes(x) == Some(id) {
        assert(instr_writes(seq![x][0]) == Some(id));
    }
}

/// What is covered stays covered when more temporaries are in the base.
pub proof fn lemma_covered_widen(
    c: Seq<TacInstrView>,
    base: Set<Identifier>,
    more: Set<Identifier>,
)
    requires
        covered(c, base),
        forall|id: Identifier| base.contains(id) ==> more.contains(id),
    ensures
        covered(c, more),
{
}

/// Code may follow code if each temporary that it reads too early for
/// itself is in the base or written by the code before it.
pub proof fn lemma_covered_concat(
    c1: Seq<TacInstrView>,
    c2: Seq<TacInstrView>,
    base: Set<Identifier>,
    base2: Set<Identifier>,
)
    requires
        covered(c1, base),
        covered(c2, base2),
        forall|id: Identifier| base2.contains(id) ==> base.contains(id) || writes_in(c1, id),
    ensures
        covered(c1 + c2, base),
{
    let c = c1 + c2;
    assert forall|j: int, k: int|
        0 <= j < c.len() && 0 <= k < instr_reads(c[j]).len() implies base.contains(
        #[trigger] instr_reads(c[j])[k],
    ) || written_before(c, j, instr_reads(c[j])[k]) by {
        let id = instr_reads(c[j])[k];
        if j < c1.len() {
            assert(c[j] == c1[j]);
            if !base.contains(id) {
                assert(written_before(c1, j, instr_reads(c1[j])[k]));
                let i = choose|i: int|
                    0 <= i < j && i < c1.len() && #[trigger] instr_writes(c1[i]) == Some(id);
                assert(instr_writes(c[i]) == Some(id));
            }
        } else {
            let j2 = j - c1.len();
            assert(c[j] == c2[j2]);
            if !base2.contains(id) {
                assert(written_before(c2, j2, instr_reads(c2[j2])[k]));
                let i = choose|i: int|
                    0 <= i < j2 && i < c2.len() && #[trigger] instr_writes(c2[i]) == Some(id);
                assert(instr_writes(c[c1.len() + i]) == Some(id));
            } else if !base.contains(id) {
                let i = choose|i: int|
                    0 <= i < c1.len() && i < c1.len() && #[trigger] instr_writes(c1[i]) == Some(
                        id,
                    );
                assert(instr_writes(c[i]) == Some(id));
            }
        }
    }
}

/// An instruction may follow code if each temporary that it reads is in
/// the base or written by the code.
pub proof fn lemma_covered_push(c: Seq<TacInstrView>, x: TacInstrView, base: Set<Identifier>)
    requires
        covered(c, base),
        forall|k: int|
            0 <= k < instr_reads(x).len() ==> base.contains(#[trigger] instr_reads(x)[k])
                || writes_in(c, instr_reads(x)[k]),
    ensures
        covered(c.push(x), base),
{
    let base2 = Set::new(|id: Identifier| base.contains(id) || writes_in(c, id));
    assert(covered(seq![x], base2)) by {
        assert forall|j: int, k: int|
            0 <= j < seq![x].len() && 0 <= k < instr_reads(seq![x][j]).len() implies base2.contains(
            #[trigger] instr_reads(seq![x][j])[k],
        ) || written_before(seq![x], j, instr_reads(seq![x][j])[k]) by {
            assert(seq![x][j] == x);
        }
    }
    lemma_covered_concat(c, seq![x], base, base2);
    assert(c.push(x) =~= c + seq![x]);
}

/// A value that may be read after code may be read after more code.
pub proof fn lemma_known_later(
    v: TacVal,
    c1: Seq<TacInstrView>,
    c2: Seq<TacInstrView>,
    base: Set<Identifier>,
)
    requires
        known(v, c1, base) || known(v, c2, base),
    ensures
        known(v, c1 + c2, base),
{
    if let TacVal::Var(id) = v {
        lemma_writes_concat(c1, c2, id);
    }
}

/// What is delivered to a target reads nothing too early if the value at
/// hand may be read.
pub proof fn lemma_deliver_reads(
    code: Seq<TacInstrView>,
    val: TacVal,
    target: Option<Identifier>,
    ctx: TacContext,
    base: Set<Identifier>,
)
    requires
        covered(code, base),
        known(val, code, base),
    ensures
        reads_ok(deliver(code, val, target, ctx), target, base),
{
    if let Some(t) = target {
        let x = TacInstrView::Copy(t, val);
        if let TacVal::Var(id) = val {
            assert(instr_reads(x)[0] == id);
        }
        lemma_covered_push(code, x, base);
        lemma_writes_push(code, x, t);
    }
}

/// Each temporary that a list of values reads is one of the values.
pub proof fn lemma_vals_reads_from(vs: Seq<TacVal>, k: int)
    requires
        0 <= k < vals_reads(vs).len(),
    ensures
        exists|i: int| 0 <= i < vs.len() && #[trigger] vs[i] == TacVal::Var(vals_reads(vs)[k]),
    decreases vs.len(),
{
    let front = vals_reads(vs.drop_last());
    if k < front.len() {
        lemma_vals_reads_from(vs.drop_last(), k);
        let i = choose|i: int|
            0 <= i < vs.drop_last().len() && #[trigger] vs.drop_last()[i] == TacVal::Var(front[k]);
        assert(vs[i] == TacVal::Var(vals_reads(vs)[k]));
    } else {
        assert(vs[vs.len() - 1] == TacVal::Var(vals_reads(vs)[k]));
    }
}

/// An instruction that reads nothing may follow any code.
pub proof fn lemma_push_none(c: Seq<TacInstrView>, x: TacInstrView, base: Set<Identifier>)
    requires
        covered(c, base),
        instr_reads(x).len() == 0,
    ensures
        covered(c.push(x), base),
{
    lemma_covered_push(c, x, base);
}

/// An instruction that reads one value may follow code after which the
/// value may be read.
pub proof fn lemma_push_one(
    c: Seq<TacInstrView>,
    x: TacInstrView,
    v: TacVal,
    base: Set<Identifier>,
)
    requires
        covered(c, base),
        known(v, c, base),
        instr_reads(x) == val_reads(v),
    ensures
        covered(c.push(x), base),
{
    lemma_covered_push(c, x, base);
}

/// An instruction that reads two values may follow code after which both
/// may be read.
pub proof fn lemma_push_two(
    c: Seq<TacInstrView>,
    x: TacInstrView,
    v1: TacVal,
    v2: TacVal,
    base: Set<Identifier>,
)
    requires
        covered(c, base),
        known(v1, c, base),
        known(v2, c, base),
        instr_reads(x) == val_reads(v1) + val_reads(v2),
    ensures
        covered(c.push(x), base),
{
    assert forall|k: int| 0 <= k < instr_reads(x).len() implies base.contains(
        #[trigger] instr_reads(x)[k],
    ) || writes_in(c, instr_reads(x)[k]) by {
        let id = instr_reads(x)[k];
        if k < val_reads(v1).len() {
            assert(v1 == TacVal::Var(id));
        } else {
            assert(val_reads(v2)[k - val_reads(v1).len()] == id);
            assert(v2 == TacVal::Var(id));
        }
    }
    lemma_covered_push(c, x, base);
}

/// What holds of the code of a part holds of it inside the whole, whose
/// variables include those of the part.
pub proof fn lemma_reads_ok_widen(
    r: ExprTac,
    target: Option<Identifier>,
    base: Set<Identifier>,
    more: Set<Identifier>,
)
    requires
        reads_ok(r, target, base),
        forall|id: Identifier| base.contains(id) ==> more.contains(id),
    ensures
        reads_ok(r, target, more),
{
    lemma_covered_widen(r.code, base, more);
}

/// Single assignment for expressions: in the code of an expression, every
/// read of a temporary comes after a write of it, unless the temporary
/// belongs to a variable that the expression names. The value of the
/// expression may be read after the code, and with a target the code
/// writes the target.
pub proof fn lemma_expr_reads(
    e: ExprView,
    vars: Seq<BindingView>,
    target: Option<Identifier>,
    hint: Option<VarSize>,
    ctx: TacContext,
)
    requires
        lower_expr(e, vars, target, hint, ctx) is Ok,
    ensures
        reads_ok(lower_expr(e, vars, target, hint, ctx)->Ok_0, target, variables_of(e, vars)),
    decreases expr_height(e), 2nat,
{
    let base = variables_of(e, vars);
    match e {
        ExprView::IntLiteral(v) => {
            if let Some(t) = target {
                lemma_deliver_reads(Seq::empty(), TacVal::Lit(v as i64, t.1), target, ctx, base);
            }
        },
        ExprView::Var(n) => {
            let id = lookup(vars, n)->Ok_0;
            assert(mentions(e, n) && resolve(vars, n) == Some(id));
            lemma_deliver_reads(Seq::empty(), TacVal::Var(id), target, ctx, base);
        },
        ExprView::Assign(n, rhs) => {
            lemma_assign_reads(n, *rhs, vars, target, ctx);
            lemma_reads_ok_widen(
                lower_assign(n, *rhs, vars, target, ctx)->Ok_0,
                target,
                variables_of(*rhs, vars),
                base,
            );
        },
        ExprView::UnOp(op, inner) => {
            lemma_unop_reads(op, *inner, vars, target, hint, ctx);
            lemma_reads_ok_widen(
                lower_unop(op, *inner, vars, target, hint, ctx)->Ok_0,
                target,
                variables_of(*inner, vars),
                base,
            );
        },
        ExprView::BinOp(op, a, b) => {
            lemma_binop_reads(op, *a, *b, vars, target, hint, ctx);
            lemma_reads_ok_widen(
                lower_binop(op, *a, *b, vars, target, hint, ctx)->Ok_0,
                target,
                both_of(*a, *b, vars),
                base,
            );
        },
        ExprView::Ternary(c, x, y) => {
            lemma_ternary_reads(*c, *x, *y, vars, target, hint, ctx);
            lemma_reads_ok_widen(
                lower_ternary(*c, *x, *y, vars, target, hint, ctx)->Ok_0,
                target,
                three_of(*c, *x, *y, vars),
                base,
            );
        },
        ExprView::FunctionCall(f, args) => {
            lemma_call_reads(f, args, vars, target, ctx);
            lemma_reads_ok_widen(
                lower_call(f, args, vars, target, ctx)->Ok_0,
                target,
                variables_of_any(args, vars),
                base,
            );
        },
        ExprView::PostfixInc(n) => lemma_step_reads(n, BinOp::Plus, vars, target, ctx, base),
        ExprView::PostfixDec(n) => lemma_step_reads(n, BinOp::Minus, vars, target, ctx, base),
        ExprView::PrefixInc(n) => lemma_step_reads(n, BinOp::Plus, vars, target, ctx, base),
        ExprView::PrefixDec(n) => lemma_step_reads(n, BinOp::Minus, vars, target, ctx, base),
        ExprView::ArrInitExpr(_) => {},
    }
}

/// The temporaries of the variables that one of two expressions names.
pub open spec fn both_of(a: ExprView, b: ExprView, vars: Seq<BindingView>) -> Set<Identifier> {
    Set::new(|id: Identifier| variables_of(a, vars).contains(id) || variables_of(b, vars).contains(id))
}

/// The temporaries of the variables that one of three expressions names.
pub open spec fn three_of(c: ExprView, x: ExprView, y: ExprView, vars: Seq<BindingView>) -> Set<
    Identifier,
> {
    Set::new(
        |id: Identifier|
            variables_of(c, vars).contains(id) || variables_of(x, vars).contains(id)
                || variables_of(y, vars).contains(id),
    )
}

/// Increments and decrements read only their variable.
pub proof fn lemma_step_reads(
    n: Seq<char>,
    op: BinOp,
    vars: Seq<BindingView>,
    target: Option<Identifier>,
    ctx: TacContext,
    base: Set<Identifier>,
)
    requires
        lookup(vars, n) matches Ok(id) ==> base.contains(id),
    ensures
        lower_postfix(n, op, vars, target, ctx) matches Ok(r) ==> reads_ok(r, target, base),
        lower_prefix(n, op, vars, target, ctx) matches Ok(r) ==> reads_ok(r, target, base),
{
    if let Ok(id) = lookup(vars, n) {
        let step = Seq::<TacInstrView>::empty().push(step_instr(id, op));
        assert(instr_reads(step_instr(id, op)) =~= seq![id]);
        lemma_push_one(Seq::empty(), step_instr(id, op), TacVal::Var(id), base);
        assert(step =~= seq![step_instr(id, op)]);
        lemma_deliver_reads(step, TacVal::Var(id), target, ctx, base);
        if let Ok((kept, c)) = fresh_temp(ctx, id.1) {
            let keep = Seq::<TacInstrView>::empty().push(
                TacInstrView::Copy(kept, TacVal::Var(id)),
            );
            lemma_push_one(
                Seq::empty(),
                TacInstrView::Copy(kept, TacVal::Var(id)),
                TacVal::Var(id),
                base,
            );
            lemma_push_one(keep, step_instr(id, op), TacVal::Var(id), base);
            let both = keep.push(step_instr(id, op));
            assert(both =~= seq![TacInstrView::Copy(kept, TacVal::Var(id)), step_instr(id, op)]);
            assert(instr_writes(both[0]) == Some(kept));
            lemma_deliver_reads(both, TacVal::Var(kept), target, c, base);
        }
        if target == Some(id) {
            assert(instr_writes(step[0]) == Some(id));
        }
    }
}

/// An assignment reads what its right side reads.
pub proof fn lemma_assign_reads(
    n: Seq<char>,
    rhs: ExprView,
    vars: Seq<BindingView>,
    target: Option<Identifier>,
    ctx: TacContext,
)
    requires
        lower_assign(n, rhs, vars, target, ctx) is Ok,
    ensures
        reads_ok(lower_assign(n, rhs, vars, target, ctx)->Ok_0, target, variables_of(rhs, vars)),
    decreases 1 + expr_height(rhs), 0nat,
{
    let id = lookup(vars, n)->Ok_0;
    let r = lower_expr(rhs, vars, Some(id), Some(id.1), ctx)->Ok_0;
    lemma_expr_reads(rhs, vars, Some(id), Some(id.1), ctx);
    lemma_deliver_reads(r.code, TacVal::Var(id), target, r.ctx, variables_of(rhs, vars));
}

/// A unary operation reads what its operand reads, and then the value of
/// the operand.
pub proof fn lemma_unop_reads(
    op: UnOp,
    inner: ExprView,
    vars: Seq<BindingView>,
    target: Option<Identifier>,
    hint: Option<VarSize>,
    ctx: TacContext,
)
    requires
        lower_unop(op, inner, vars, target, hint, ctx) is Ok,
    ensures
        reads_ok(
            lower_unop(op, inner, vars, target, hint, ctx)->Ok_0,
            target,
            variables_of(inner, vars),
        ),
    decreases 1 + expr_height(inner), 0nat,
{
    let base = variables_of(inner, vars);
    let size = expr_size(inner, vars)->Ok_0;
    let (t, c1) = pick_target(target, size_or_default(size_or(size, hint)), ctx)->Ok_0;
    let r = lower_expr(inner, vars, None, hint, c1)->Ok_0;
    lemma_expr_reads(inner, vars, None, hint, c1);
    let x = TacInstrView::UnOp(t, r.val, op);
    lemma_push_one(r.code, x, r.val, base);
    lemma_writes_push(r.code, x, t);
}

/// A binary operation reads what its operands read, and then their values.
pub proof fn lemma_binop_reads(
    op: BinOp,
    a: ExprView,
    b: ExprView,
    vars: Seq<BindingView>,
    target: Option<Identifier>,
    hint: Option<VarSize>,
    ctx: TacContext,
)
    requires
        lower_binop(op, a, b, vars, target, hint, ctx) is Ok,
    ensures
        reads_ok(lower_binop(op, a, b, vars, target, hint, ctx)->Ok_0, target, both_of(a, b, vars)),
    decreases 1 + expr_height(a) + expr_height(b), 1nat,
{
    let base = both_of(a, b, vars);
    if is_short_circuit(op) {
        lemma_short_circuit_reads(op, a, b, vars, target, hint, ctx);
    } else {
        let size = pair_size(a, b, vars)->Ok_0;
        let ra = lower_expr(a, vars, None, size_or(size, hint), ctx)->Ok_0;
        let rb = lower_expr(b, vars, None, size_or(size, hint), ra.ctx)->Ok_0;
        let (t, c) = pick_target(target, size_or_default(size_or(size, hint)), rb.ctx)->Ok_0;
        lemma_expr_reads(a, vars, None, size_or(size, hint), ctx);
        lemma_expr_reads(b, vars, None, size_or(size, hint), ra.ctx);
        lemma_reads_ok_widen(ra, None, variables_of(a, vars), base);
        lemma_reads_ok_widen(rb, None, variables_of(b, vars), base);
        lemma_covered_concat(ra.code, rb.code, base, base);
        lemma_known_later(ra.val, ra.code, rb.code, base);
        lemma_known_later(rb.val, ra.code, rb.code, base);
        let x = TacInstrView::BinOp(t, ra.val, rb.val, op);
        lemma_push_two(ra.code + rb.code, x, ra.val, rb.val, base);
        lemma_writes_push(ra.code + rb.code, x, t);
    }
}

/// The code of `&&` and of `||` reads what the operands read, and then
/// their values.
pub proof fn lemma_short_circuit_reads(
    op: BinOp,
    a: ExprView,
    b: ExprView,
    vars: Seq<BindingView>,
    target: Option<Identifier>,
    hint: Option<VarSize>,
    ctx: TacContext,
)
    requires
        is_short_circuit(op),
        lower_short_circuit(op, a, b, vars, target, hint, ctx) is Ok,
    ensures
        reads_ok(
            lower_short_circuit(op, a, b, vars, target, hint, ctx)->Ok_0,
            target,
            both_of(a, b, vars),
        ),
    decreases 1 + expr_height(a) + expr_height(b), 0nat,
{
    let base = both_of(a, b, vars);
    let size = pair_size(a, b, vars)->Ok_0;
    let (t, c1) = pick_target(target, size_or_default(size_or(size, hint)), ctx)->Ok_0;
    let (k, c2) = fresh_label(c1)->Ok_0;
    let ra = lower_expr(a, vars, None, None, c2)->Ok_0;
    let rb = lower_expr(b, vars, None, None, ra.ctx)->Ok_0;
    lemma_expr_reads(a, vars, None, None, c2);
    lemma_expr_reads(b, vars, None, None, ra.ctx);
    lemma_reads_ok_widen(ra, None, variables_of(a, vars), base);
    lemma_reads_ok_widen(rb, None, variables_of(b, vars), base);
    let (kf, ke, bit) = if op == BinOp::LogicalAnd {
        (LabelKind::AndFalse, LabelKind::AndEnd, 0i64)
    } else {
        (LabelKind::OrTrue, LabelKind::OrEnd, 1i64)
    };
    let jump = if op == BinOp::LogicalAnd {
        TacInstrView::JmpZero(label_text(kf, k), ra.val)
    } else {
        TacInstrView::JmpNotZero(label_text(kf, k), ra.val)
    };
    let test = TacInstrView::BinOp(t, rb.val, TacVal::Lit(0, t.1), BinOp::NotEquals);
    let seg1 = ra.code.push(jump);
    let seg2 = seg1 + rb.code;
    let seg3 = seg2.push(test);
    let seg4 = seg3.push(TacInstrView::Jmp(label_text(ke, k)));
    let seg5 = seg4.push(TacInstrView::Label(label_text(kf, k)));
    let seg6 = seg5.push(TacInstrView::Copy(t, TacVal::Lit(bit, t.1)));
    let seg7 = seg6.push(TacInstrView::Label(label_text(ke, k)));
    assert(short_circuit_code(op, t, k, ra, rb) =~= seg7);
    lemma_push_one(ra.code, jump, ra.val, base);
    lemma_covered_concat(seg1, rb.code, base, base);
    lemma_known_later(rb.val, seg1, rb.code, base);
    assert(instr_reads(test) =~= val_reads(rb.val) + val_reads(TacVal::Lit(0, t.1)));
    lemma_push_two(seg2, test, rb.val, TacVal::Lit(0, t.1), base);
    lemma_push_none(seg3, TacInstrView::Jmp(label_text(ke, k)), base);
    lemma_push_none(seg4, TacInstrView::Label(label_text(kf, k)), base);
    lemma_push_none(seg5, TacInstrView::Copy(t, TacVal::Lit(bit, t.1)), base);
    lemma_push_none(seg6, TacInstrView::Label(label_text(ke, k)), base);
    assert(instr_writes(seg7[seg2.len() as int]) == Some(t));
}

/// The code of a ternary reads what its three parts read, and then the
/// value of the condition.
pub proof fn lemma_ternary_reads(
    c: ExprView,
    x: ExprView,
    y: ExprView,
    vars: Seq<BindingView>,
    target: Option<Identifier>,
    hint: Option<VarSize>,
    ctx: TacContext,
)
    requires
        lower_ternary(c, x, y, vars, target, hint, ctx) is Ok,
    ensures
        reads_ok(
            lower_ternary(c, x, y, vars, target, hint, ctx)->Ok_0,
            target,
            three_of(c, x, y, vars),
        ),
    decreases 1 + expr_height(c) + expr_height(x) + expr_height(y), 0nat,
{
    let base = three_of(c, x, y, vars);
    let size = pair_size(x, y, vars)->Ok_0;
    let (t, c1) = pick_target(target, size_or_default(size_or(size, hint)), ctx)->Ok_0;
    let (k, c2) = fresh_label(c1)->Ok_0;
    let rc = lower_expr(c, vars, None, None, c2)->Ok_0;
    let rx = lower_expr(x, vars, Some(t), Some(t.1), rc.ctx)->Ok_0;
    let ry = lower_expr(y, vars, Some(t), Some(t.1), rx.ctx)->Ok_0;
    lemma_expr_reads(c, vars, None, None, c2);
    lemma_expr_reads(x, vars, Some(t), Some(t.1), rc.ctx);
    lemma_expr_reads(y, vars, Some(t), Some(t.1), rx.ctx);
    lemma_reads_ok_widen(rc, None, variables_of(c, vars), base);
    lemma_reads_ok_widen(rx, Some(t), variables_of(x, vars), base);
    lemma_reads_ok_widen(ry, Some(t), variables_of(y, vars), base);
    let f = label_text(LabelKind::TernaryFalse, k);
    let end = label_text(LabelKind::TernaryEnd, k);
    let jump = TacInstrView::JmpZero(f, rc.val);
    let seg1 = rc.code.push(jump);
    let seg2 = seg1 + rx.code;
    let seg3 = seg2.push(TacInstrView::Jmp(end));
    let seg4 = seg3.push(TacInstrView::Label(f));
    let seg5 = seg4 + ry.code;
    let seg6 = seg5.push(TacInstrView::Label(end));
    assert(ternary_code(k, rc, rx, ry) =~= seg6);
    lemma_push_one(rc.code, jump, rc.val, base);
    lemma_covered_concat(seg1, rx.code, base, base);
    lemma_push_none(seg2, TacInstrView::Jmp(end), base);
    lemma_push_none(seg3, TacInstrView::Label(f), base);
    lemma_covered_concat(seg4, ry.code, base, base);
    lemma_push_none(seg5, TacInstrView::Label(end), base);
    lemma_writes_concat(seg4, ry.code, t);
    lemma_writes_push(seg5, TacInstrView::Label(end), t);
}

/// The code of a call reads what the arguments read, and then their
/// values.
pub proof fn lemma_call_reads(
    f: Seq<char>,
    args: Seq<ExprView>,
    vars: Seq<BindingView>,
    target: Option<Identifier>,
    ctx: TacContext,
)
    requires
        lower_call(f, args, vars, target, ctx) is Ok,
    ensures
        reads_ok(lower_call(f, args, vars, target, ctx)->Ok_0, target, variables_of_any(args, vars)),
    decreases 1 + heights(args), 0nat,
{
    let base = variables_of_any(args, vars);
    let (t, c1) = pick_target(target, default_size(), ctx)->Ok_0;
    let r = lower_args(args, vars, c1)->Ok_0;
    lemma_args_reads(args, vars, c1);
    let x = TacInstrView::Call(f, r.vals, Some(t));
    assert forall|k: int| 0 <= k < instr_reads(x).len() implies base.contains(
        #[trigger] instr_reads(x)[k],
    ) || writes_in(r.code, instr_reads(x)[k]) by {
        lemma_vals_reads_from(r.vals, k);
        let i = choose|i: int|
            0 <= i < r.vals.len() && #[trigger] r.vals[i] == TacVal::Var(vals_reads(r.vals)[k]);
        assert(known(r.vals[i], r.code, base));
    }
    lemma_covered_push(r.code, x, base);
    lemma_writes_push(r.code, x, t);
}

/// The code of a list of expressions reads nothing too early, and each of
/// the values may be read after it.
pub proof fn lemma_args_reads(args: Seq<ExprView>, vars: Seq<BindingView>, ctx: TacContext)
    requires
        lower_args(args, vars, ctx) is Ok,
    ensures
        covered(lower_args(args, vars, ctx)->Ok_0.code, variables_of_any(args, vars)),
        forall|i: int|
            0 <= i < lower_args(args, vars, ctx)->Ok_0.vals.len() ==> known(
                #[trigger] lower_args(args, vars, ctx)->Ok_0.vals[i],
                lower_args(args, vars, ctx)->Ok_0.code,
                variables_of_any(args, vars),
            ),
    decreases heights(args), 3nat,
{
    let base = variables_of_any(args, vars);
    if args.len() > 0 {
        let front = lower_args(args.drop_last(), vars, ctx)->Ok_0;
        let r = lower_expr(args.last(), vars, None, None, front.ctx)->Ok_0;
        let whole = lower_args(args, vars, ctx)->Ok_0;
        lemma_args_reads(args.drop_last(), vars, ctx);
        lemma_expr_reads(args.last(), vars, None, None, front.ctx);
        lemma_covered_widen(front.code, variables_of_any(args.drop_last(), vars), base);
        lemma_reads_ok_widen(r, None, variables_of(args.last(), vars), base);
        lemma_covered_concat(front.code, r.code, base, base);
        assert forall|i: int| 0 <= i < whole.vals.len() implies known(
            #[trigger] whole.vals[i],
            whole.code,
            base,
        ) by {
            if i < front.vals.len() {
                assert(whole.vals[i] == front.vals[i]);
                assert(known(front.vals[i], front.code, variables_of_any(args.drop_last(), vars)));
                lemma_known_later(front.vals[i], front.code, r.code, base);
            } else {
                lemma_known_later(r.val, front.code, r.code, base);
            }
        }
    }
}

} // verus!
