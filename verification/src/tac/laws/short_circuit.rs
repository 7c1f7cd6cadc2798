//! The logical operators skip their right operand when the left one
//! decides.

use vstd::prelude::*;
use crate::parser::expr_parser::{BinOp, ExprView};
use crate::tac::expr::{
    is_short_circuit, lower_expr, lower_short_circuit, pair_size, pick_target,
    short_circuit_code, size_or, size_or_default, ExprTac,
};
use crate::tac::labels::{label_text, LabelKind};
use crate::tac::laws::labels::{label_of, lemma_short_circuit_labels};
use crate::tac::{fresh_label, BindingView, Identifier, TacContext, TacInstrView};
use crate::types::VarSize;

verus! {

/// The index of the instruction that defines the label `l`.
pub open spec fn label_index(code: Seq<TacInstrView>, l: Seq<char>) -> int {
    choose|i: int| 0 <= i < code.len() && label_of(#[trigger] code[i]) == Some(l)
}

/// The index of the instruction that runs after the one at `pc`. For a
/// conditional jump, `zero` says whether the value that it tests is zero;
/// for every other instruction it plays no part.
pub open spec fn successor(code: Seq<TacInstrView>, pc: int, zero: bool) -> int {
    match code[pc] {
        TacInstrView::Jmp(l) => label_index(code, l),
        TacInstrView::JmpZero(l, _) => if zero {
            label_index(code, l)
        } else {
            pc + 1
        },
        TacInstrView::JmpNotZero(l, _) => if zero {
            pc + 1
        } else {
            label_index(code, l)
        },
        _ => pc + 1,
    }
}

/// The codes of the two operands inside the code of `a && b` or `a || b`.
pub open spec fn short_circuit_parts(
    op: BinOp,
    a: ExprView,
    b: ExprView,
    vars: Seq<BindingView>,
    target: Option<Identifier>,
    hint: Option<VarSize>,
    ctx: TacContext,
) -> (ExprTac, ExprTac) {
    let size = pair_size(a, b, vars)->Ok_0;
    let c1 = pick_target(target, size_or_default(size_or(size, hint)), ctx)->Ok_0.1;
    let c2 = fresh_label(c1)->Ok_0.1;
    let ra = lower_expr(a, vars, None, None, c2)->Ok_0;
    let rb = lower_expr(b, vars, None, None, ra.ctx)->Ok_0;
    (ra, rb)
}

/// In `code`, the instructions from `from` up to `from + count` belong to
/// the right operand, the jump at `from - 1` tests the left operand, and
/// when that jump is taken, control runs from it to the end of `code`
/// without passing through any instruction of the right operand.
pub open spec fn jumps_over(code: Seq<TacInstrView>, from: int, count: int, zero: bool) -> bool {
    let landing: int = from + count + 2;
    &&& 1 <= from
    &&& 0 <= count
    &&& code.len() == landing + 3
    &&& successor(code, from - 1, zero) == landing
    &&& successor(code, landing, zero) == landing + 1
    &&& successor(code, landing + 1, zero) == landing + 2
    &&& successor(code, landing + 2, zero) == code.len()
}

/// Short circuit: in the code of `a && b`, the code of `a` comes first,
/// then a jump, then the code of `b`. If `a` is zero the jump is taken, and
/// what runs from there on up to the end of the code holds no instruction
/// of `b`. The same holds of `a || b` if `a` is not zero.
pub proof fn lemma_short_circuit_skips(
    op: BinOp,
    a: ExprView,
    b: ExprView,
    vars: Seq<BindingView>,
    target: Option<Identifier>,
    hint: Option<VarSize>,
    ctx: TacContext,
)
    requires
        is_short_circuit(op),
        lower_short_circuit(op, a, b, vars, target, hint, ctx) is Ok,
    ensures
        ({
            let code = lower_short_circuit(op, a, b, vars, target, hint, ctx)->Ok_0.code;
            let (ra, rb) = short_circuit_parts(op, a, b, vars, target, hint, ctx);
            let from: int = ra.code.len() as int + 1;
            &&& code.subrange(0, ra.code.len() as int) == ra.code
            &&& code.subrange(from, from + rb.code.len()) == rb.code
            &&& jumps_over(code, from, rb.code.len() as int, op == BinOp::LogicalAnd)
        }),
{
    let size = pair_size(a, b, vars)->Ok_0;
    let (t, c1) = pick_target(target, size_or_default(size_or(size, hint)), ctx)->Ok_0;
    let (k, c2) = fresh_label(c1)->Ok_0;
    let (ra, rb) = short_circuit_parts(op, a, b, vars, target, hint, ctx);
    let code = short_circuit_code(op, t, k, ra, rb);
    assert(code == lower_short_circuit(op, a, b, vars, target, hint, ctx)->Ok_0.code);
    lemma_short_circuit_labels(op, a, b, vars, target, hint, ctx);
    let from: int = ra.code.len() as int + 1;
    let landing: int = from + rb.code.len() + 2;
    let f = if op == BinOp::LogicalAnd {
        label_text(LabelKind::AndFalse, k)
    } else {
        label_text(LabelKind::OrTrue, k)
    };
    assert(code.subrange(0, ra.code.len() as int) =~= ra.code);
    assert(code.subrange(from, from + rb.code.len()) =~= rb.code);
    assert(code.len() == landing + 3);
    assert(label_of(code[landing]) == Some(f));
    assert(jump_lands(code, f, landing)) by {
        let i = label_index(code, f);
        assert(0 <= i < code.len() && label_of(code[i]) == Some(f));
        if i < landing {
            assert(label_of(code[i]) != label_of(code[landing]));
        }
        if landing < i {
            assert(label_of(code[landing]) != label_of(code[i]));
        }
    }
    assert(code[from - 1] == if op == BinOp::LogicalAnd {
        TacInstrView::JmpZero(f, ra.val)
    } else {
        TacInstrView::JmpNotZero(f, ra.val)
    });
    assert(code[landing + 1] is Copy);
    assert(code[landing + 2] is Label);
}

/// The label `l` is defined at index `at` of `code` and nowhere else.
pub open spec fn jump_lands(code: Seq<TacInstrView>, l: Seq<char>, at: int) -> bool {
    label_index(code, l) == at
}

} // verus!
