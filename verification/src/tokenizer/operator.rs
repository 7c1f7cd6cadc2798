//! Operators as tokens.

use vstd::prelude::*;

verus! {

/// An operator of the language.
#[derive(Clone, Copy, Debug, PartialEq, Eq, Structural)]
pub enum Op {
    Plus,
    Minus,
    Star,
    Slash,
    Percent,
    Not,
    BitwiseComplement,
    AndAnd,
    OrOr,
    DoubleEquals,
    NotEquals,
    LessThan,
    LessThanEq,
    GreaterThan,
    GreaterThanEq,
    PlusEquals,
    MinusEquals,
    PlusPlus,
    MinusMinus,
}

/// The operator that the two characters write together, if they write
/// one.
pub open spec fn double_operator(c: char, d: char) -> Option<Op> {
    if c == '+' && d == '+' {
        Some(Op::PlusPlus)
    } else if c == '-' && d == '-' {
        Some(Op::MinusMinus)
    } else if c == '+' && d == '=' {
        Some(Op::PlusEquals)
    } else if c == '-' && d == '=' {
        Some(Op::MinusEquals)
    } else if c == '=' && d == '=' {
        Some(Op::DoubleEquals)
    } else if c == '!' && d == '=' {
        Some(Op::NotEquals)
    } else if c == '<' && d == '=' {
        Some(Op::LessThanEq)
    } else if c == '>' && d == '=' {
        Some(Op::GreaterThanEq)
    } else if c == '&' && d == '&' {
        Some(Op::AndAnd)
    } else if c == '|' && d == '|' {
        Some(Op::OrOr)
    } else {
        None
    }
}

/// The operator that the character writes alone, if it writes one.
pub open spec fn single_operator(c: char) -> Option<Op> {
    if c == '+' {
        Some(Op::Plus)
    } else if c == '-' {
        Some(Op::Minus)
    } else if c == '*' {
        Some(Op::Star)
    } else if c == '/' {
        Some(Op::Slash)
    } else if c == '%' {
        Some(Op::Percent)
    } else if c == '!' {
        Some(Op::Not)
    } else if c == '~' {
        Some(Op::BitwiseComplement)
    } else if c == '<' {
        Some(Op::LessThan)
    } else if c == '>' {
        Some(Op::GreaterThan)
    } else {
        None
    }
}

/// Whether the character writes an operator alone.
pub fn is_operator(c: &char) -> (b: bool)
    ensures
        b == single_operator(*c) is Some,
{
    char_to_operator(c).is_some()
}

/// The operator that the character writes alone, if it writes one.
pub fn char_to_operator(c: &char) -> (op: Option<Op>)
    ensures
        op == single_operator(*c),
{
    let c = *c;
    if c == '+' {
        Some(Op::Plus)
    } else if c == '-' {
        Some(Op::Minus)
    } else if c == '*' {
        Some(Op::Star)
    } else if c == '/' {
        Some(Op::Slash)
    } else if c == '%' {
        Some(Op::Percent)
    } else if c == '!' {
        Some(Op::Not)
    } else if c == '~' {
        Some(Op::BitwiseComplement)
    } else if c == '<' {
        Some(Op::LessThan)
    } else if c == '>' {
        Some(Op::GreaterThan)
    } else {
        None
    }
}

/// The operator that the two characters write together, if they write
/// one.
pub fn chars_to_operator(c: char, d: char) -> (op: Option<Op>)
    ensures
        op == double_operator(c, d),
{
    if c == '+' && d == '+' {
        Some(Op::PlusPlus)
    } else if c == '-' && d == '-' {
        Some(Op::MinusMinus)
    } else if c == '+' && d == '=' {
        Some(Op::PlusEquals)
    } else if c == '-' && d == '=' {
        Some(Op::MinusEquals)
    } else if c == '=' && d == '=' {
        Some(Op::DoubleEquals)
    } else if c == '!' && d == '=' {
        Some(Op::NotEquals)
    } else if c == '<' && d == '=' {
        Some(Op::LessThanEq)
    } else if c == '>' && d == '=' {
        Some(Op::GreaterThanEq)
    } else if c == '&' && d == '&' {
        Some(Op::AndAnd)
    } else if c == '|' && d == '|' {
        Some(Op::OrOr)
    } else {
        None
    }
}

} // verus!
