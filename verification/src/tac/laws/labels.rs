//! Labels: every label is defined once, and every jump has a label to go
//! to.

use vstd::prelude::*;
use crate::parser::expr_parser::{expr_height, heights, BinOp, ExprView, UnOp};
use crate::tac::expr::{
    deliver, is_short_circuit, lower_args, lower_assign, lower_binop, lower_call, lower_expr,
    lower_postfix, lower_prefix, lower_short_circuit, lower_ternary, lower_unop, pair_size,
    pick_target, short_circuit_code, size_or, size_or_default, ternary_code, expr_size,
};
use crate::tac::labels::{label_text, lemma_label_text_injective, LabelKind};
use crate::tac::{fresh_label, lookup, BindingView, Identifier, TacContext, TacInstrView, TacVal};
use crate::types::{default_size, VarSize};

verus! {

/// The label that an instruction defines, if it defines one.
pub open spec fn label_of(i: TacInstrView) -> Option<Seq<char>> {
    match i {
        TacInstrView::Label(l) => Some(l),
        _ => None,
    }
}

/// The label that an instruction may jump to, if it is a jump.
pub open spec fn jump_target(i: TacInstrView) -> Option<Seq<char>> {
    match i {
        TacInstrView::Jmp(l) => Some(l),
        TacInstrView::JmpZero(l, _) => Some(l),
        TacInstrView::JmpNotZero(l, _) => Some(l),
        _ => None,
    }
}

/// Some instruction of `code` defines the label `l`.
pub open spec fn defines(code: Seq<TacInstrView>, l: Seq<char>) -> bool {
    exists|i: int| 0 <= i < code.len() && label_of(#[trigger] code[i]) == Some(l)
}

/// The label `l` was made from a number from `lo` up to, but not
/// including, `hi`.
pub open spec fn minted(l: Seq<char>, lo: u64, hi: u64) -> bool {
    exists|kind: LabelKind, n: u64| lo <= n < hi && l == #[trigger] label_text(kind, n)
}

/// Every label that `code` defines was made from a number in the range.
pub open spec fn labels_fresh(code: Seq<TacInstrView>, lo: u64, hi: u64) -> bool {
    forall|i: int|
        0 <= i < code.len() && label_of(#[trigger] code[i]) is Some ==> minted(
            label_of(code[i])->0,
            lo,
            hi,
        )
}

/// No two instructions of `code` define the same label.
pub open spec fn labels_unique(code: Seq<TacInstrView>) -> bool {
    forall|i: int, j: int|
        0 <= i < j < code.len() && label_of(code[i]) is Some ==> label_of(#[trigger] code[i])
            != label_of(#[trigger] code[j])
}

/// The labels of `code` are made from numbers in the range, and each is
/// defined once.
pub open spec fn labels_distinct(code: Seq<TacInstrView>, lo: u64, hi: u64) -> bool {
    labels_fresh(code, lo, hi) && labels_unique(code)
}

/// Every jump of `code` goes to a label that `code` defines or that is in
/// `outer`.
pub open spec fn targets_defined(code: Seq<TacInstrView>, outer: Set<Seq<char>>) -> bool {
    forall|i: int|
        0 <= i < code.len() && jump_target(#[trigger] code[i]) is Some ==> outer.contains(
            jump_target(code[i])->0,
        ) || defines(code, jump_target(code[i])->0)
}

/// A concatenation defines what its parts define.
pub proof fn lemma_defines_concat(c1: Seq<TacInstrView>, c2: Seq<TacInstrView>, l: Seq<char>)
    ensures
        defines(c1 + c2, l) <==> defines(c1, l) || defines(c2, l),
{
    let c = c1 + c2;
    if defines(c1, l) {
        let i = choose|i: int| 0 <= i < c1.len() && label_of(#[trigger] c1[i]) == Some(l);
        assert(c[i] == c1[i]);
    }
    if defines(c2, l) {
        let i = choose|i: int| 0 <= i < c2.len() && label_of(#[trigger] c2[i]) == Some(l);
        assert(c[c1.len() + i] == c2[i]);
    }
    if defines(c, l) {
        let i = choose|i: int| 0 <= i < c.len() && label_of(#[trigger] c[i]) == Some(l);
        if i < c1.len() {
            assert(c1[i] == c[i]);
        } else {
            assert(c2[i - c1.len()] == c[i]);
        }
    }
}

/// Code with one more instruction defines what the code defines and what
/// the instruction defines.
pub proof fn lemma_defines_push(c: Seq<TacInstrView>, x: TacInstrView, l: Seq<char>)
    ensures
        defines(c.push(x), l) <==> defines(c, l) || label_of(x) == Some(l),
{
    lemma_defines_concat(c, seq![x], l);
    assert(c.push(x) =~= c + seq![x]);
    if label_of(x) == Some(l) {
        assert(seq![x][0] == x);
    }
}

/// Code whose labels come from a range of numbers defines no label with a
/// number outside the range.
pub proof fn lemma_not_defined(c: Seq<TacInstrView>, lo: u64, hi: u64, kind: LabelKind, k: u64)
    requires
        labels_fresh(c, lo, hi),
        k < lo || k >= hi,
    ensures
        !defines(c, label_text(kind, k)),
{
    if defines(c, label_text(kind, k)) {
        let i = choose|i: int|
            0 <= i < c.len() && label_of(#[trigger] c[i]) == Some(label_text(kind, k));
        let (kind2, n) = choose|kind2: LabelKind, n: u64|
            lo <= n < hi && label_text(kind, k) == #[trigger] label_text(kind2, n);
        lemma_label_text_injective(kind, k, kind2, n);
    }
}

/// A wider range of numbers holds what a narrower one holds.
pub proof fn lemma_distinct_widen(c: Seq<TacInstrView>, lo: u64, hi: u64, lo2: u64, hi2: u64)
    requires
        labels_distinct(c, lo, hi),
        lo2 <= lo,
        hi <= hi2,
    ensures
        labels_distinct(c, lo2, hi2),
{
    assert forall|i: int| 0 <= i < c.len() && label_of(#[trigger] c[i]) is Some implies minted(
        label_of(c[i])->0,
        lo2,
        hi2,
    ) by {
        let l = label_of(c[i])->0;
        let (kind, n) = choose|kind: LabelKind, n: u64|
            lo <= n < hi && l == #[trigger] label_text(kind, n);
        assert(lo2 <= n < hi2 && l == label_text(kind, n));
    }
}

/// Two codes that define no label in common stay free of repeated labels
/// when one follows the other.
pub proof fn lemma_distinct_concat(c1: Seq<TacInstrView>, c2: Seq<TacInstrView>, lo: u64, hi: u64)
    requires
        labels_distinct(c1, lo, hi),
        labels_distinct(c2, lo, hi),
        forall|l: Seq<char>| !(defines(c1, l) && defines(c2, l)),
    ensures
        labels_distinct(c1 + c2, lo, hi),
{
    let c = c1 + c2;
    assert forall|i: int| 0 <= i < c.len() && label_of(#[trigger] c[i]) is Some implies minted(
        label_of(c[i])->0,
        lo,
        hi,
    ) by {
        if i < c1.len() {
            assert(c[i] == c1[i]);
        } else {
            assert(c[i] == c2[i - c1.len()]);
        }
    }
    assert forall|i: int, j: int|
        0 <= i < j < c.len() && label_of(c[i]) is Some implies label_of(#[trigger] c[i])
        != label_of(#[trigger] c[j]) by {
        if j < c1.len() {
            assert(c[i] == c1[i] && c[j] == c1[j]);
        } else if i >= c1.len() {
            assert(c[i] == c2[i - c1.len()] && c[j] == c2[j - c1.len()]);
        } else {
            assert(c[i] == c1[i] && c[j] == c2[j - c1.len()]);
            if label_of(c[i]) == label_of(c[j]) {
                let l = label_of(c[i])->0;
                assert(defines(c1, l));
                assert(defines(c2, l));
            }
        }
    }
}

/// Two codes whose labels come from ranges of numbers that do not overlap
/// stay free of repeated labels when one follows the other.
pub proof fn lemma_distinct_concat_ranges(
    c1: Seq<TacInstrView>,
    c2: Seq<TacInstrView>,
    lo1: u64,
    hi1: u64,
    lo2: u64,
    hi2: u64,
    lo: u64,
    hi: u64,
)
    requires
        labels_distinct(c1, lo1, hi1),
        labels_distinct(c2, lo2, hi2),
        hi1 <= lo2 || hi2 <= lo1,
        lo <= lo1 && lo <= lo2 && hi1 <= hi && hi2 <= hi,
    ensures
        labels_distinct(c1 + c2, lo, hi),
{
    lemma_distinct_widen(c1, lo1, hi1, lo, hi);
    lemma_distinct_widen(c2, lo2, hi2, lo, hi);
    assert forall|l: Seq<char>| !(defines(c1, l) && defines(c2, l)) by {
        if defines(c1, l) && defines(c2, l) {
            let i = choose|i: int| 0 <= i < c1.len() && label_of(#[trigger] c1[i]) == Some(l);
            let (kind, n) = choose|kind: LabelKind, n: u64|
                lo1 <= n < hi1 && l == #[trigger] label_text(kind, n);
            lemma_not_defined(c2, lo2, hi2, kind, n);
        }
    }
    lemma_distinct_concat(c1, c2, lo, hi);
}

/// An instruction that defines no label changes nothing about labels.
pub proof fn lemma_distinct_push_plain(c: Seq<TacInstrView>, x: TacInstrView, lo: u64, hi: u64)
    requires
        labels_distinct(c, lo, hi),
        label_of(x) is None,
    ensures
        labels_distinct(c.push(x), lo, hi),
{
    let d = c.push(x);
    assert forall|i: int| 0 <= i < d.len() && label_of(#[trigger] d[i]) is Some implies minted(
        label_of(d[i])->0,
        lo,
        hi,
    ) by {
        if i < c.len() {
            assert(d[i] == c[i]);
        }
    }
    assert forall|i: int, j: int|
        0 <= i < j < d.len() && label_of(d[i]) is Some implies label_of(#[trigger] d[i])
        != label_of(#[trigger] d[j]) by {
        if j < c.len() {
            assert(d[i] == c[i] && d[j] == c[j]);
        }
    }
}

/// A new label may follow code that does not define it.
pub proof fn lemma_distinct_push_label(
    c: Seq<TacInstrView>,
    kind: LabelKind,
    k: u64,
    lo: u64,
    hi: u64,
)
    requires
        labels_distinct(c, lo, hi),
        !defines(c, label_text(kind, k)),
        lo <= k < hi,
    ensures
        labels_distinct(c.push(TacInstrView::Label(label_text(kind, k))), lo, hi),
{
    let d = c.push(TacInstrView::Label(label_text(kind, k)));
    assert forall|i: int| 0 <= i < d.len() && label_of(#[trigger] d[i]) is Some implies minted(
        label_of(d[i])->0,
        lo,
        hi,
    ) by {
        if i < c.len() {
            assert(d[i] == c[i]);
        } else {
            assert(lo <= k < hi && label_of(d[i])->0 == label_text(kind, k));
        }
    }
    assert forall|i: int, j: int|
        0 <= i < j < d.len() && label_of(d[i]) is Some implies label_of(#[trigger] d[i])
        != label_of(#[trigger] d[j]) by {
        if j < c.len() {
            assert(d[i] == c[i] && d[j] == c[j]);
        } else {
            assert(d[i] == c[i]);
        }
    }
}

/// Jumps that have a label to go to still have one when more labels are
/// allowed outside.
pub proof fn lemma_targets_widen(
    c: Seq<TacInstrView>,
    outer: Set<Seq<char>>,
    more: Set<Seq<char>>,
)
    requires
        targets_defined(c, outer),
        forall|l: Seq<char>| outer.contains(l) ==> more.contains(l),
    ensures
        targets_defined(c, more),
{
}

/// Jumps that have a label to go to in their part have one in the whole.
pub proof fn lemma_targets_concat(
    c1: Seq<TacInstrView>,
    c2: Seq<TacInstrView>,
    outer: Set<Seq<char>>,
)
    requires
        targets_defined(c1, outer),
        targets_defined(c2, outer),
    ensures
        targets_defined(c1 + c2, outer),
{
    let c = c1 + c2;
    assert forall|i: int|
        0 <= i < c.len() && jump_target(#[trigger] c[i]) is Some implies outer.contains(
        jump_target(c[i])->0,
    ) || defines(c, jump_target(c[i])->0) by {
        let l = jump_target(c[i])->0;
        lemma_defines_concat(c1, c2, l);
        if i < c1.len() {
            assert(c[i] == c1[i]);
        } else {
            assert(c[i] == c2[i - c1.len()]);
        }
    }
}

/// One more instruction keeps the jumps provided for if it is no jump, or
/// jumps to a label outside.
pub proof fn lemma_targets_push(c: Seq<TacInstrView>, x: TacInstrView, outer: Set<Seq<char>>)
    requires
        targets_defined(c, outer),
        jump_target(x) matches Some(l) ==> outer.contains(l),
    ensures
        targets_defined(c.push(x), outer),
{
    assert(targets_defined(seq![x], outer));
    lemma_targets_concat(c, seq![x], outer);
    assert(c.push(x) =~= c + seq![x]);
}

/// Labels that the code defines itself need not be allowed outside.
pub proof fn lemma_targets_discharge(
    c: Seq<TacInstrView>,
    outer: Set<Seq<char>>,
    more: Set<Seq<char>>,
)
    requires
        targets_defined(c, more),
        forall|l: Seq<char>| more.contains(l) ==> outer.contains(l) || defines(c, l),
    ensures
        targets_defined(c, outer),
{
}

/// The labels of `code` are made from numbers in the range, each is
/// defined once, and every jump goes to a label of `code` or of `outer`.
pub open spec fn well_labelled(
    code: Seq<TacInstrView>,
    lo: u64,
    hi: u64,
    outer: Set<Seq<char>>,
) -> bool {
    lo <= hi && labels_distinct(code, lo, hi) && targets_defined(code, outer)
}

/// Whether the code holds neither a label nor a jump.
pub open spec fn plain(code: Seq<TacInstrView>) -> bool {
    forall|i: int|
        0 <= i < code.len() ==> label_of(#[trigger] code[i]) is None && jump_target(code[i])
            is None
}

/// Code with neither labels nor jumps is well labelled.
pub proof fn lemma_plain(code: Seq<TacInstrView>, lo: u64, outer: Set<Seq<char>>)
    requires
        plain(code),
    ensures
        well_labelled(code, lo, lo, outer),
{
}

/// One more instruction that is neither a label nor a jump keeps code
/// well labelled.
pub proof fn lemma_well_labelled_push(
    c: Seq<TacInstrView>,
    x: TacInstrView,
    lo: u64,
    hi: u64,
    outer: Set<Seq<char>>,
)
    requires
        well_labelled(c, lo, hi, outer),
        label_of(x) is None,
        jump_target(x) is None,
    ensures
        well_labelled(c.push(x), lo, hi, outer),
{
    lemma_distinct_push_plain(c, x, lo, hi);
    lemma_targets_push(c, x, outer);
}

/// Well-labelled codes whose labels come from ranges that follow each
/// other are well labelled together.
pub proof fn lemma_well_labelled_concat(
    c1: Seq<TacInstrView>,
    c2: Seq<TacInstrView>,
    lo: u64,
    mid: u64,
    hi: u64,
    outer: Set<Seq<char>>,
)
    requires
        well_labelled(c1, lo, mid, outer),
        well_labelled(c2, mid, hi, outer),
    ensures
        well_labelled(c1 + c2, lo, hi, outer),
{
    lemma_distinct_concat_ranges(c1, c2, lo, mid, mid, hi, lo, hi);
    lemma_targets_concat(c1, c2, outer);
}

/// The pair of labels of one construct: two kinds with one number.
pub open spec fn pair_of(k1: LabelKind, k2: LabelKind, k: u64) -> Set<Seq<char>> {
    Set::new(|l: Seq<char>| l == label_text(k1, k) || l == label_text(k2, k))
}

/// What is delivered to a target is as well labelled as what was at hand.
pub proof fn lemma_deliver_labels(
    code: Seq<TacInstrView>,
    val: TacVal,
    target: Option<Identifier>,
    ctx: TacContext,
    lo: u64,
    hi: u64,
)
    requires
        well_labelled(code, lo, hi, Set::empty()),
    ensures
        well_labelled(deliver(code, val, target, ctx).code, lo, hi, Set::empty()),
{
    if let Some(t) = target {
        lemma_well_labelled_push(code, TacInstrView::Copy(t, val), lo, hi, Set::empty());
    }
}

/// Lowering an expression mints labels from the numbers between the
/// counter before and the counter after, defines each of them once, and
/// lets no jump leave the code of the expression.
pub proof fn lemma_expr_labels(
    e: ExprView,
    vars: Seq<BindingView>,
    target: Option<Identifier>,
    hint: Option<VarSize>,
    ctx: TacContext,
)
    requires
        lower_expr(e, vars, target, hint, ctx) is Ok,
    ensures
        well_labelled(
            lower_expr(e, vars, target, hint, ctx)->Ok_0.code,
            ctx.next_label,
            lower_expr(e, vars, target, hint, ctx)->Ok_0.ctx.next_label,
            Set::empty(),
        ),
    decreases expr_height(e), 2nat,
{
    let none = Set::<Seq<char>>::empty();
    match e {
        ExprView::IntLiteral(v) => {
            lemma_plain(Seq::empty(), ctx.next_label, none);
            lemma_deliver_labels(
                Seq::empty(),
                TacVal::Lit(v as i64, size_or_default(hint)),
                None,
                ctx,
                ctx.next_label,
                ctx.next_label,
            );
            if let Some(t) = target {
                lemma_deliver_labels(
                    Seq::empty(),
                    TacVal::Lit(v as i64, t.1),
                    target,
                    ctx,
                    ctx.next_label,
                    ctx.next_label,
                );
            }
        },
        ExprView::Var(n) => {
            lemma_plain(Seq::empty(), ctx.next_label, none);
            lemma_deliver_labels(
                Seq::empty(),
                TacVal::Var(lookup(vars, n)->Ok_0),
                target,
                ctx,
                ctx.next_label,
                ctx.next_label,
            );
        },
        ExprView::Assign(n, rhs) => lemma_assign_labels(n, *rhs, vars, target, ctx),
        ExprView::UnOp(op, inner) => lemma_unop_labels(op, *inner, vars, target, hint, ctx),
        ExprView::BinOp(op, a, b) => lemma_binop_labels(op, *a, *b, vars, target, hint, ctx),
        ExprView::Ternary(c, x, y) => lemma_ternary_labels(*c, *x, *y, vars, target, hint, ctx),
        ExprView::FunctionCall(f, args) => lemma_call_labels(f, args, vars, target, ctx),
        ExprView::PostfixInc(n) => lemma_step_labels(n, BinOp::Plus, vars, target, ctx),
        ExprView::PostfixDec(n) => lemma_step_labels(n, BinOp::Minus, vars, target, ctx),
        ExprView::PrefixInc(n) => lemma_step_labels(n, BinOp::Plus, vars, target, ctx),
        ExprView::PrefixDec(n) => lemma_step_labels(n, BinOp::Minus, vars, target, ctx),
        ExprView::ArrInitExpr(_) => {},
    }
}

/// Increments and decrements mint no label and hold no jump.
pub proof fn lemma_step_labels(
    n: Seq<char>,
    op: BinOp,
    vars: Seq<BindingView>,
    target: Option<Identifier>,
    ctx: TacContext,
)
    ensures
        lower_postfix(n, op, vars, target, ctx) matches Ok(r) ==> well_labelled(
            r.code,
            ctx.next_label,
            r.ctx.next_label,
            Set::empty(),
        ),
        lower_prefix(n, op, vars, target, ctx) matches Ok(r) ==> well_labelled(
            r.code,
            ctx.next_label,
            r.ctx.next_label,
            Set::empty(),
        ),
{
    if let Ok(id) = lookup(vars, n) {
        let step = seq![crate::tac::expr::step_instr(id, op)];
        lemma_plain(step, ctx.next_label, Set::empty());
        lemma_deliver_labels(step, TacVal::Var(id), target, ctx, ctx.next_label, ctx.next_label);
        if let Ok((kept, c)) = crate::tac::fresh_temp(ctx, id.1) {
            let both = seq![
                TacInstrView::Copy(kept, TacVal::Var(id)),
                crate::tac::expr::step_instr(id, op),
            ];
            lemma_plain(both, ctx.next_label, Set::empty());
            lemma_deliver_labels(both, TacVal::Var(kept), target, c, ctx.next_label, ctx.next_label);
        }
    }
}

/// The labels of an assignment are those of its right side.
pub proof fn lemma_assign_labels(
    n: Seq<char>,
    rhs: ExprView,
    vars: Seq<BindingView>,
    target: Option<Identifier>,
    ctx: TacContext,
)
    requires
        lower_assign(n, rhs, vars, target, ctx) is Ok,
    ensures
        well_labelled(
            lower_assign(n, rhs, vars, target, ctx)->Ok_0.code,
            ctx.next_label,
            lower_assign(n, rhs, vars, target, ctx)->Ok_0.ctx.next_label,
            Set::empty(),
        ),
    decreases 1 + expr_height(rhs), 0nat,
{
    let id = lookup(vars, n)->Ok_0;
    let r = lower_expr(rhs, vars, Some(id), Some(id.1), ctx)->Ok_0;
    lemma_expr_labels(rhs, vars, Some(id), Some(id.1), ctx);
    lemma_deliver_labels(r.code, TacVal::Var(id), target, r.ctx, ctx.next_label, r.ctx.next_label);
}

/// The labels of a unary operation are those of its operand.
pub proof fn lemma_unop_labels(
    op: UnOp,
    inner: ExprView,
    vars: Seq<BindingView>,
    target: Option<Identifier>,
    hint: Option<VarSize>,
    ctx: TacContext,
)
    requires
        lower_unop(op, inner, vars, target, hint, ctx) is Ok,
    ensures
        well_labelled(
            lower_unop(op, inner, vars, target, hint, ctx)->Ok_0.code,
            ctx.next_label,
            lower_unop(op, inner, vars, target, hint, ctx)->Ok_0.ctx.next_label,
            Set::empty(),
        ),
    decreases 1 + expr_height(inner), 0nat,
{
    let size = expr_size(inner, vars)->Ok_0;
    let (t, c1) = pick_target(target, size_or_default(size_or(size, hint)), ctx)->Ok_0;
    let r = lower_expr(inner, vars, None, hint, c1)->Ok_0;
    lemma_expr_labels(inner, vars, None, hint, c1);
    lemma_well_labelled_push(
        r.code,
        TacInstrView::UnOp(t, r.val, op),
        ctx.next_label,
        r.ctx.next_label,
        Set::empty(),
    );
}

/// The labels of a binary operation are those of its operands, and for
/// the two logical operators the two that steer around the right operand.
pub proof fn lemma_binop_labels(
    op: BinOp,
    a: ExprView,
    b: ExprView,
    vars: Seq<BindingView>,
    target: Option<Identifier>,
    hint: Option<VarSize>,
    ctx: TacContext,
)
    requires
        lower_binop(op, a, b, vars, target, hint, ctx) is Ok,
    ensures
        well_labelled(
            lower_binop(op, a, b, vars, target, hint, ctx)->Ok_0.code,
            ctx.next_label,
            lower_binop(op, a, b, vars, target, hint, ctx)->Ok_0.ctx.next_label,
            Set::empty(),
        ),
    decreases 1 + expr_height(a) + expr_height(b), 1nat,
{
    if is_short_circuit(op) {
        lemma_short_circuit_labels(op, a, b, vars, target, hint, ctx);
    } else {
        let size = pair_size(a, b, vars)->Ok_0;
        let ra = lower_expr(a, vars, None, size_or(size, hint), ctx)->Ok_0;
        let rb = lower_expr(b, vars, None, size_or(size, hint), ra.ctx)->Ok_0;
        let (t, c) = pick_target(target, size_or_default(size_or(size, hint)), rb.ctx)->Ok_0;
        lemma_expr_labels(a, vars, None, size_or(size, hint), ctx);
        lemma_expr_labels(b, vars, None, size_or(size, hint), ra.ctx);
        lemma_well_labelled_concat(
            ra.code,
            rb.code,
            ctx.next_label,
            ra.ctx.next_label,
            rb.ctx.next_label,
            Set::empty(),
        );
        lemma_well_labelled_push(
            ra.code + rb.code,
            TacInstrView::BinOp(t, ra.val, rb.val, op),
            ctx.next_label,
            rb.ctx.next_label,
            Set::empty(),
        );
    }
}

/// The two labels of `&&` and of `||` are new, differ from each other and
/// are both defined in the code of the operation.
#[verifier::rlimit(40)]
pub proof fn lemma_short_circuit_labels(
    op: BinOp,
    a: ExprView,
    b: ExprView,
    vars: Seq<BindingView>,
    target: Option<Identifier>,
    hint: Option<VarSize>,
    ctx: TacContext,
)
    requires
        is_short_circuit(op),
        lower_short_circuit(op, a, b, vars, target, hint, ctx) is Ok,
    ensures
        well_labelled(
            lower_short_circuit(op, a, b, vars, target, hint, ctx)->Ok_0.code,
            ctx.next_label,
            lower_short_circuit(op, a, b, vars, target, hint, ctx)->Ok_0.ctx.next_label,
            Set::empty(),
        ),
    decreases 1 + expr_height(a) + expr_height(b), 0nat,
{
    let size = pair_size(a, b, vars)->Ok_0;
    let (t, c1) = pick_target(target, size_or_default(size_or(size, hint)), ctx)->Ok_0;
    let (k, c2) = fresh_label(c1)->Ok_0;
    let ra = lower_expr(a, vars, None, None, c2)->Ok_0;
    let rb = lower_expr(b, vars, None, None, ra.ctx)->Ok_0;
    lemma_expr_labels(a, vars, None, None, c2);
    lemma_expr_labels(b, vars, None, None, ra.ctx);
    let hi = rb.ctx.next_label;
    let (kf, ke) = if op == BinOp::LogicalAnd {
        (LabelKind::AndFalse, LabelKind::AndEnd)
    } else {
        (LabelKind::OrTrue, LabelKind::OrEnd)
    };
    let f = label_text(kf, k);
    let end = label_text(ke, k);
    let both = pair_of(kf, ke, k);
    let jump = if op == BinOp::LogicalAnd {
        TacInstrView::JmpZero(f, ra.val)
    } else {
        TacInstrView::JmpNotZero(f, ra.val)
    };
    let s1 = ra.code.push(jump);
    let s2 = s1 + rb.code;
    let tail = seq![
        TacInstrView::BinOp(t, rb.val, TacVal::Lit(0, t.1), BinOp::NotEquals),
        TacInstrView::Jmp(end),
        TacInstrView::Label(f),
        TacInstrView::Copy(
            t,
            TacVal::Lit(
                if op == BinOp::LogicalAnd {
                    0
                } else {
                    1
                },
                t.1,
            ),
        ),
        TacInstrView::Label(end),
    ];
    assert(short_circuit_code(op, t, k, ra, rb) =~= s2 + tail);
    // the labels
    lemma_distinct_push_plain(ra.code, jump, c2.next_label, ra.ctx.next_label);
    lemma_distinct_concat_ranges(
        s1,
        rb.code,
        c2.next_label,
        ra.ctx.next_label,
        ra.ctx.next_label,
        hi,
        k,
        hi,
    );
    if f == end {
        lemma_label_text_injective(kf, k, ke, k);
    }
    assert(labels_distinct(tail, k, hi)) by {
        assert(minted(f, k, hi));
        assert(minted(end, k, hi));
    }
    assert forall|l: Seq<char>| !(defines(s2, l) && defines(tail, l)) by {
        if defines(tail, l) {
            lemma_not_defined(s2, c2.next_label, hi, kf, k);
            lemma_not_defined(s2, c2.next_label, hi, ke, k);
        }
    }
    lemma_distinct_widen(s2, c2.next_label, hi, k, hi);
    lemma_distinct_concat(s2, tail, k, hi);
    // the jumps
    lemma_targets_widen(ra.code, Set::empty(), both);
    lemma_targets_widen(rb.code, Set::empty(), both);
    lemma_targets_push(ra.code, jump, both);
    lemma_targets_concat(s1, rb.code, both);
    assert(targets_defined(tail, both));
    lemma_targets_concat(s2, tail, both);
    assert(defines(s2 + tail, f) && defines(s2 + tail, end)) by {
        lemma_defines_concat(s2, tail, f);
        lemma_defines_concat(s2, tail, end);
        assert(label_of(tail[2]) == Some(f));
        assert(label_of(tail[4]) == Some(end));
    }
    lemma_targets_discharge(s2 + tail, Set::empty(), both);
}

/// The two labels of a ternary are new, differ from each other and are
/// both defined in the code of the ternary.
#[verifier::rlimit(40)]
pub proof fn lemma_ternary_labels(
    c: ExprView,
    x: ExprView,
    y: ExprView,
    vars: Seq<BindingView>,
    target: Option<Identifier>,
    hint: Option<VarSize>,
    ctx: TacContext,
)
    requires
        lower_ternary(c, x, y, vars, target, hint, ctx) is Ok,
    ensures
        well_labelled(
            lower_ternary(c, x, y, vars, target, hint, ctx)->Ok_0.code,
            ctx.next_label,
            lower_ternary(c, x, y, vars, target, hint, ctx)->Ok_0.ctx.next_label,
            Set::empty(),
        ),
    decreases 1 + expr_height(c) + expr_height(x) + expr_height(y), 0nat,
{
    let size = pair_size(x, y, vars)->Ok_0;
    let (t, c1) = pick_target(target, size_or_default(size_or(size, hint)), ctx)->Ok_0;
    let (k, c2) = fresh_label(c1)->Ok_0;
    let rc = lower_expr(c, vars, None, None, c2)->Ok_0;
    let rx = lower_expr(x, vars, Some(t), Some(t.1), rc.ctx)->Ok_0;
    let ry = lower_expr(y, vars, Some(t), Some(t.1), rx.ctx)->Ok_0;
    lemma_expr_labels(c, vars, None, None, c2);
    lemma_expr_labels(x, vars, Some(t), Some(t.1), rc.ctx);
    lemma_expr_labels(y, vars, Some(t), Some(t.1), rx.ctx);
    let lo = c2.next_label;
    let hi = ry.ctx.next_label;
    let f = label_text(LabelKind::TernaryFalse, k);
    let end = label_text(LabelKind::TernaryEnd, k);
    let both = pair_of(LabelKind::TernaryFalse, LabelKind::TernaryEnd, k);
    let jump = TacInstrView::JmpZero(f, rc.val);
    let s1 = rc.code.push(jump);
    let s2 = s1 + rx.code;
    let middle = seq![TacInstrView::Jmp(end), TacInstrView::Label(f)];
    let s3 = s2 + middle;
    let last = ry.code.push(TacInstrView::Label(end));
    assert(ternary_code(k, rc, rx, ry) =~= s3 + last);
    if f == end {
        lemma_label_text_injective(LabelKind::TernaryFalse, k, LabelKind::TernaryEnd, k);
    }
    // the labels
    lemma_distinct_push_plain(rc.code, jump, lo, rc.ctx.next_label);
    lemma_distinct_concat_ranges(
        s1,
        rx.code,
        lo,
        rc.ctx.next_label,
        rc.ctx.next_label,
        rx.ctx.next_label,
        lo,
        rx.ctx.next_label,
    );
    assert(labels_distinct(middle, k, lo)) by {
        assert(minted(f, k, lo));
    }
    lemma_distinct_concat_ranges(s2, middle, lo, rx.ctx.next_label, k, lo, k, rx.ctx.next_label);
    lemma_not_defined(ry.code, rx.ctx.next_label, hi, LabelKind::TernaryEnd, k);
    lemma_distinct_widen(ry.code, rx.ctx.next_label, hi, k, hi);
    lemma_distinct_push_label(ry.code, LabelKind::TernaryEnd, k, k, hi);
    lemma_distinct_widen(s3, k, rx.ctx.next_label, k, hi);
    assert forall|l: Seq<char>| !(defines(s3, l) && defines(last, l)) by {
        if defines(s3, l) && defines(last, l) {
            lemma_defines_concat(s2, middle, l);
            lemma_defines_push(ry.code, TacInstrView::Label(end), l);
            lemma_not_defined(s2, lo, rx.ctx.next_label, LabelKind::TernaryEnd, k);
            lemma_not_defined(ry.code, rx.ctx.next_label, hi, LabelKind::TernaryFalse, k);
            if defines(s2, l) && defines(ry.code, l) {
                let i = choose|i: int| 0 <= i < s2.len() && label_of(#[trigger] s2[i]) == Some(l);
                let (kind, n) = choose|kind: LabelKind, n: u64|
                    lo <= n < rx.ctx.next_label && l == #[trigger] label_text(kind, n);
                lemma_not_defined(ry.code, rx.ctx.next_label, hi, kind, n);
            }
            if defines(middle, l) {
                let i = choose|i: int|
                    0 <= i < middle.len() && label_of(#[trigger] middle[i]) == Some(l);
                assert(l == f);
            }
        }
    }
    lemma_distinct_concat(s3, last, k, hi);
    // the jumps
    lemma_targets_widen(rc.code, Set::empty(), both);
    lemma_targets_widen(rx.code, Set::empty(), both);
    lemma_targets_widen(ry.code, Set::empty(), both);
    lemma_targets_push(rc.code, jump, both);
    lemma_targets_concat(s1, rx.code, both);
    assert(targets_defined(middle, both));
    lemma_targets_concat(s2, middle, both);
    lemma_targets_push(ry.code, TacInstrView::Label(end), both);
    lemma_targets_concat(s3, last, both);
    assert(defines(s3 + last, f) && defines(s3 + last, end)) by {
        lemma_defines_concat(s3, last, f);
        lemma_defines_concat(s3, last, end);
        lemma_defines_concat(s2, middle, f);
        lemma_defines_push(ry.code, TacInstrView::Label(end), end);
        assert(label_of(middle[1]) == Some(f));
    }
    lemma_targets_discharge(s3 + last, Set::empty(), both);
}

/// The labels of a call are those of its arguments.
pub proof fn lemma_call_labels(
    f: Seq<char>,
    args: Seq<ExprView>,
    vars: Seq<BindingView>,
    target: Option<Identifier>,
    ctx: TacContext,
)
    requires
        lower_call(f, args, vars, target, ctx) is Ok,
    ensures
        well_labelled(
            lower_call(f, args, vars, target, ctx)->Ok_0.code,
            ctx.next_label,
            lower_call(f, args, vars, target, ctx)->Ok_0.ctx.next_label,
            Set::empty(),
        ),
    decreases 1 + heights(args), 0nat,
{
    let (t, c1) = pick_target(target, default_size(), ctx)->Ok_0;
    let r = lower_args(args, vars, c1)->Ok_0;
    lemma_args_labels(args, vars, c1);
    lemma_well_labelled_push(
        r.code,
        TacInstrView::Call(f, r.vals, Some(t)),
        ctx.next_label,
        r.ctx.next_label,
        Set::empty(),
    );
}

/// The labels of a list of expressions are those of the expressions.
pub proof fn lemma_args_labels(args: Seq<ExprView>, vars: Seq<BindingView>, ctx: TacContext)
    requires
        lower_args(args, vars, ctx) is Ok,
    ensures
        well_labelled(
            lower_args(args, vars, ctx)->Ok_0.code,
            ctx.next_label,
            lower_args(args, vars, ctx)->Ok_0.ctx.next_label,
            Set::empty(),
        ),
    decreases heights(args), 3nat,
{
    if args.len() > 0 {
        let front = lower_args(args.drop_last(), vars, ctx)->Ok_0;
        let r = lower_expr(args.last(), vars, None, None, front.ctx)->Ok_0;
        lemma_args_labels(args.drop_last(), vars, ctx);
        lemma_expr_labels(args.last(), vars, None, None, front.ctx);
        lemma_well_labelled_concat(
            front.code,
            r.code,
            ctx.next_label,
            front.ctx.next_label,
            r.ctx.next_label,
            Set::empty(),
        );
    }
}

} // verus!
