//! The names of the labels that lowering mints.

use vstd::prelude::*;
use crate::text::{
    decimal_digits, is_digit, lemma_decimal_digits, lemma_decimal_digits_injective, numbered,
};

verus! {

/// The role that a label plays in the construct it belongs to.
#[derive(Clone, Copy, Debug, PartialEq, Eq, Structural)]
pub enum LabelKind {
    AndFalse,
    AndEnd,
    OrTrue,
    OrEnd,
    TernaryFalse,
    TernaryEnd,
    IfElse,
    IfEnd,
    WhileStart,
    WhileEnd,
    ForStart,
    ForPost,
    ForEnd,
}

/// The text that the labels of a kind begin with.
pub open spec fn label_prefix(kind: LabelKind) -> Seq<char> {
    match kind {
        LabelKind::AndFalse => "label_and_false_"@,
        LabelKind::AndEnd => "label_and_end_"@,
        LabelKind::OrTrue => "label_or_true_"@,
        LabelKind::OrEnd => "label_or_end_"@,
        LabelKind::TernaryFalse => "label_ternary_false_"@,
        LabelKind::TernaryEnd => "label_ternary_end_"@,
        LabelKind::IfElse => "label_if_else_"@,
        LabelKind::IfEnd => "label_if_end_"@,
        LabelKind::WhileStart => "label_while_start_"@,
        LabelKind::WhileEnd => "label_while_end_"@,
        LabelKind::ForStart => "label_for_start_"@,
        LabelKind::ForPost => "label_for_post_"@,
        LabelKind::ForEnd => "label_for_end_"@,
    }
}

/// The name of the label of the given kind and number: the prefix of the
/// kind, then the number in decimal.
pub open spec fn label_text(kind: LabelKind, n: u64) -> Seq<char> {
    label_prefix(kind) + decimal_digits(n as nat)
}

/// Makes the name of the label of the given kind and number.
pub fn make_label(kind: LabelKind, n: u64) -> (s: String)
    ensures
        s@ == label_text(kind, n),
{
    match kind {
        LabelKind::AndFalse => numbered("label_and_false_", n),
        LabelKind::AndEnd => numbered("label_and_end_", n),
        LabelKind::OrTrue => numbered("label_or_true_", n),
        LabelKind::OrEnd => numbered("label_or_end_", n),
        LabelKind::TernaryFalse => numbered("label_ternary_false_", n),
        LabelKind::TernaryEnd => numbered("label_ternary_end_", n),
        LabelKind::IfElse => numbered("label_if_else_", n),
        LabelKind::IfEnd => numbered("label_if_end_", n),
        LabelKind::WhileStart => numbered("label_while_start_", n),
        LabelKind::WhileEnd => numbered("label_while_end_", n),
        LabelKind::ForStart => numbered("label_for_start_", n),
        LabelKind::ForPost => numbered("label_for_post_", n),
        LabelKind::ForEnd => numbered("label_for_end_", n),
    }
}

/// What tells the prefixes apart: the length and the letter that follows
/// `label_`.
pub open spec fn prefix_mark(kind: LabelKind) -> (nat, char) {
    match kind {
        LabelKind::AndFalse => (16, 'a'),
        LabelKind::AndEnd => (14, 'a'),
        LabelKind::OrTrue => (14, 'o'),
        LabelKind::OrEnd => (13, 'o'),
        LabelKind::TernaryFalse => (20, 't'),
        LabelKind::TernaryEnd => (18, 't'),
        LabelKind::IfElse => (14, 'i'),
        LabelKind::IfEnd => (13, 'i'),
        LabelKind::WhileStart => (18, 'w'),
        LabelKind::WhileEnd => (16, 'w'),
        LabelKind::ForStart => (16, 'f'),
        LabelKind::ForPost => (15, 'f'),
        LabelKind::ForEnd => (14, 'f'),
    }
}

/// A prefix holds no digit, and has the length and the letter of its mark.
pub proof fn lemma_label_prefix(kind: LabelKind)
    ensures
        label_prefix(kind).len() == prefix_mark(kind).0,
        label_prefix(kind)[6] == prefix_mark(kind).1,
        forall|i: int|
            0 <= i < label_prefix(kind).len() ==> !is_digit(#[trigger] label_prefix(kind)[i]),
{
    reveal_strlit("label_and_false_");
    reveal_strlit("label_and_end_");
    reveal_strlit("label_or_true_");
    reveal_strlit("label_or_end_");
    reveal_strlit("label_ternary_false_");
    reveal_strlit("label_ternary_end_");
    reveal_strlit("label_if_else_");
    reveal_strlit("label_if_end_");
    reveal_strlit("label_while_start_");
    reveal_strlit("label_while_end_");
    reveal_strlit("label_for_start_");
    reveal_strlit("label_for_post_");
    reveal_strlit("label_for_end_");
}

/// Two labels with the same name have the same kind and the same number.
pub proof fn lemma_label_text_injective(k1: LabelKind, n1: u64, k2: LabelKind, n2: u64)
    requires
        label_text(k1, n1) == label_text(k2, n2),
    ensures
        k1 == k2,
        n1 == n2,
{
    let seg1 = label_prefix(k1);
    let seg2 = label_prefix(k2);
    let d1 = decimal_digits(n1 as nat);
    let d2 = decimal_digits(n2 as nat);
    lemma_label_prefix(k1);
    lemma_label_prefix(k2);
    lemma_decimal_digits(n1 as nat);
    lemma_decimal_digits(n2 as nat);
    let t1 = seg1 + d1;
    let t2 = seg2 + d2;
    assert(t1 == t2);
    assert(t1.len() == seg1.len() + d1.len());
    assert(t2.len() == seg2.len() + d2.len());
    if seg1.len() < seg2.len() {
        assert(t1[seg1.len() as int] == d1[0]);
        assert(t2[seg1.len() as int] == seg2[seg1.len() as int]);
        assert(is_digit(d1[0]));
        assert(false);
    }
    if seg2.len() < seg1.len() {
        assert(t2[seg2.len() as int] == d2[0]);
        assert(t1[seg2.len() as int] == seg1[seg2.len() as int]);
        assert(is_digit(d2[0]));
        assert(false);
    }
    assert(t1[6] == seg1[6]);
    assert(t2[6] == seg2[6]);
    assert(prefix_mark(k1) == prefix_mark(k2));
    assert(d1 =~= d2) by {
        assert forall|i: int| 0 <= i < d1.len() implies d1[i] == d2[i] by {
            assert(t1[seg1.len() + i] == d1[i]);
            assert(t2[seg2.len() + i] == d2[i]);
        }
    }
    lemma_decimal_digits_injective(n1 as nat, n2 as nat);
}

} // verus!
