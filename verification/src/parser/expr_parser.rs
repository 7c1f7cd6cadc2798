//! Expressions: their syntax tree and the parser for them.

use vstd::prelude::*;
use crate::errors::{CompileError, CompileErrorView};
use crate::parser::TokenCursor;
use crate::text::{int_literal_value, parse_int_literal};
use crate::tokenizer::operator::Op;
use crate::tokenizer::{un_op_of, Token, TokenView};

verus! {

/// An expression.
#[derive(Debug, PartialEq, Eq)]
pub enum Expr {
    IntLiteral(i32),
    Var(String),
    Assign(String, Box<Expr>),
    UnOp(UnOp, Box<Expr>),
    BinOp(BinOp, Box<Expr>, Box<Expr>),
    /// Condition, value if it is not zero, value if it is zero.
    Ternary(Box<Expr>, Box<Expr>, Box<Expr>),
    /// The name of the function and its arguments.
    FunctionCall(String, Vec<Expr>),
    PostfixDec(String),
    PostfixInc(String),
    PrefixDec(String),
    PrefixInc(String),
    /// The elements of an array, in order.
    ArrInitExpr(Vec<Expr>),
}

/// The mathematical value of an [`Expr`].
pub enum ExprView {
    IntLiteral(i32),
    Var(Seq<char>),
    Assign(Seq<char>, Box<ExprView>),
    UnOp(UnOp, Box<ExprView>),
    BinOp(BinOp, Box<ExprView>, Box<ExprView>),
    Ternary(Box<ExprView>, Box<ExprView>, Box<ExprView>),
    FunctionCall(Seq<char>, Seq<ExprView>),
    PostfixDec(Seq<char>),
    PostfixInc(Seq<char>),
    PrefixDec(Seq<char>),
    PrefixInc(Seq<char>),
    ArrInitExpr(Seq<ExprView>),
}

/// The mathematical value of an expression: the same tree, with each name
/// as a sequence of characters.
pub open spec fn expr_model(e: Expr) -> ExprView
    decreases e,
{
    match e {
        Expr::IntLiteral(v) => ExprView::IntLiteral(v),
        Expr::Var(n) => ExprView::Var(n@),
        Expr::Assign(n, rhs) => ExprView::Assign(n@, Box::new(expr_model(*rhs))),
        Expr::UnOp(op, inner) => ExprView::UnOp(op, Box::new(expr_model(*inner))),
        Expr::BinOp(op, a, b) => ExprView::BinOp(
            op,
            Box::new(expr_model(*a)),
            Box::new(expr_model(*b)),
        ),
        Expr::Ternary(c, x, y) => ExprView::Ternary(
            Box::new(expr_model(*c)),
            Box::new(expr_model(*x)),
            Box::new(expr_model(*y)),
        ),
        Expr::FunctionCall(f, args) => ExprView::FunctionCall(
            f@,
            exprs_model(args),
        ),
        Expr::PostfixDec(n) => ExprView::PostfixDec(n@),
        Expr::PostfixInc(n) => ExprView::PostfixInc(n@),
        Expr::PrefixDec(n) => ExprView::PrefixDec(n@),
        Expr::PrefixInc(n) => ExprView::PrefixInc(n@),
        Expr::ArrInitExpr(elems) => ExprView::ArrInitExpr(
            exprs_model(elems),
        ),
    }
}

impl View for Expr {
    type V = ExprView;

    open spec fn view(&self) -> ExprView {
        expr_model(*self)
    }
}

/// The mathematical values of a list of expressions.
pub open spec fn exprs_view(es: Seq<Expr>) -> Seq<ExprView> {
    Seq::new(es.len(), |i: int| es[i]@)
}

/// The mathematical values of the expressions of a list, in order.
pub open spec fn exprs_model(es: Vec<Expr>) -> Seq<ExprView>
    decreases es,
{
    Seq::new(
        es@.len(),
        |i: int|
            if 0 <= i < es@.len() {
                expr_model(es@[i])
            } else {
                ExprView::IntLiteral(0)
            },
    )
}

/// The list inside a call or an array initialiser is the list of the
/// values of its expressions.
pub proof fn lemma_expr_list_view(es: Vec<Expr>)
    ensures
        exprs_model(es) == exprs_view(es@),
{
    assert(exprs_model(es) =~= exprs_view(es@));
}

/// The number of nodes of an expression: a measure that every part of an
/// expression has less of than the expression.
pub open spec fn expr_height(e: ExprView) -> nat
    decreases e,
{
    match e {
        ExprView::Assign(_, rhs) => 1 + expr_height(*rhs),
        ExprView::UnOp(_, inner) => 1 + expr_height(*inner),
        ExprView::BinOp(_, a, b) => 1 + expr_height(*a) + expr_height(*b),
        ExprView::Ternary(c, x, y) => 1 + expr_height(*c) + expr_height(*x) + expr_height(*y),
        ExprView::FunctionCall(_, args) => 1 + heights(args),
        ExprView::ArrInitExpr(elems) => 1 + heights(elems),
        _ => 1,
    }
}

/// The number of nodes of a list of expressions.
pub open spec fn heights(es: Seq<ExprView>) -> nat
    decreases es,
{
    if es.len() == 0 {
        0
    } else {
        heights(es.drop_last()) + expr_height(es.last()) + 1
    }
}

/// An expression of a list has no more nodes than the list.
pub proof fn lemma_heights_bound(es: Seq<ExprView>, i: int)
    requires
        0 <= i < es.len(),
    ensures
        expr_height(es[i]) < heights(es),
    decreases es.len(),
{
    if i < es.len() - 1 {
        lemma_heights_bound(es.drop_last(), i);
    }
}

/// A unary operator.
#[derive(Clone, Copy, Debug, PartialEq, Eq, Structural)]
pub enum UnOp {
    Negation,
    BitwiseComplement,
    LogicalNot,
}

/// A binary operator.
#[derive(Clone, Copy, Debug, PartialEq, Eq, Structural)]
pub enum BinOp {
    Multiply,
    Divide,
    Modulus,
    Plus,
    Minus,
    GreaterThan,
    GreaterThanEq,
    LessThan,
    LessThanEq,
    Equals,
    NotEquals,
    LogicalAnd,
    LogicalOr,
}


/// How tightly a binary operator binds: `MulDiv` most tightly, `LogicalOr`
/// least.
#[derive(Clone, Copy, Debug, PartialEq, Eq, Structural)]
pub enum BinOpPrecedenceLevel {
    MulDiv,
    AddSub,
    OrderingCmp,
    EqCmp,
    LogicalAnd,
    LogicalOr,
}

/// The level that binds more tightly by one step, if there is one.
pub open spec fn next_level_of(level: BinOpPrecedenceLevel) -> Option<BinOpPrecedenceLevel> {
    match level {
        BinOpPrecedenceLevel::LogicalOr => Some(BinOpPrecedenceLevel::LogicalAnd),
        BinOpPrecedenceLevel::LogicalAnd => Some(BinOpPrecedenceLevel::EqCmp),
        BinOpPrecedenceLevel::EqCmp => Some(BinOpPrecedenceLevel::OrderingCmp),
        BinOpPrecedenceLevel::OrderingCmp => Some(BinOpPrecedenceLevel::AddSub),
        BinOpPrecedenceLevel::AddSub => Some(BinOpPrecedenceLevel::MulDiv),
        BinOpPrecedenceLevel::MulDiv => None,
    }
}

/// The level that binds least tightly.
pub open spec fn lowest() -> BinOpPrecedenceLevel {
    BinOpPrecedenceLevel::LogicalOr
}

/// The number of levels that bind at least as tightly as `level`.
pub open spec fn level_rank(level: BinOpPrecedenceLevel) -> nat {
    match level {
        BinOpPrecedenceLevel::MulDiv => 1,
        BinOpPrecedenceLevel::AddSub => 2,
        BinOpPrecedenceLevel::OrderingCmp => 3,
        BinOpPrecedenceLevel::EqCmp => 4,
        BinOpPrecedenceLevel::LogicalAnd => 5,
        BinOpPrecedenceLevel::LogicalOr => 6,
    }
}

impl BinOpPrecedenceLevel {
    /// The level that binds more tightly by one step, if there is one.
    pub fn next_level(&self) -> (next: Option<BinOpPrecedenceLevel>)
        ensures
            next == next_level_of(*self),
    {
        match self {
            BinOpPrecedenceLevel::LogicalOr => Some(BinOpPrecedenceLevel::LogicalAnd),
            BinOpPrecedenceLevel::LogicalAnd => Some(BinOpPrecedenceLevel::EqCmp),
            BinOpPrecedenceLevel::EqCmp => Some(BinOpPrecedenceLevel::OrderingCmp),
            BinOpPrecedenceLevel::OrderingCmp => Some(BinOpPrecedenceLevel::AddSub),
            BinOpPrecedenceLevel::AddSub => Some(BinOpPrecedenceLevel::MulDiv),
            BinOpPrecedenceLevel::MulDiv => None,
        }
    }

    /// The level that binds least tightly.
    pub fn lowest_level() -> (level: BinOpPrecedenceLevel)
        ensures
            level == lowest(),
    {
        BinOpPrecedenceLevel::LogicalOr
    }
}

/// The binary operator of the given level that a token writes, if it
/// writes one.
pub open spec fn binop_at_level(t: TokenView, level: BinOpPrecedenceLevel) -> Option<BinOp> {
    match (level, t) {
        (BinOpPrecedenceLevel::MulDiv, TokenView::Op(Op::Star)) => Some(BinOp::Multiply),
        (BinOpPrecedenceLevel::MulDiv, TokenView::Op(Op::Slash)) => Some(BinOp::Divide),
        (BinOpPrecedenceLevel::MulDiv, TokenView::Op(Op::Percent)) => Some(BinOp::Modulus),
        (BinOpPrecedenceLevel::AddSub, TokenView::Op(Op::Plus)) => Some(BinOp::Plus),
        (BinOpPrecedenceLevel::AddSub, TokenView::Op(Op::Minus)) => Some(BinOp::Minus),
        (BinOpPrecedenceLevel::OrderingCmp, TokenView::Op(Op::LessThan)) => Some(BinOp::LessThan),
        (BinOpPrecedenceLevel::OrderingCmp, TokenView::Op(Op::LessThanEq)) => Some(
            BinOp::LessThanEq,
        ),
        (BinOpPrecedenceLevel::OrderingCmp, TokenView::Op(Op::GreaterThan)) => Some(
            BinOp::GreaterThan,
        ),
        (BinOpPrecedenceLevel::OrderingCmp, TokenView::Op(Op::GreaterThanEq)) => Some(
            BinOp::GreaterThanEq,
        ),
        (BinOpPrecedenceLevel::EqCmp, TokenView::Op(Op::DoubleEquals)) => Some(BinOp::Equals),
        (BinOpPrecedenceLevel::EqCmp, TokenView::Op(Op::NotEquals)) => Some(BinOp::NotEquals),
        (BinOpPrecedenceLevel::LogicalAnd, TokenView::Op(Op::AndAnd)) => Some(BinOp::LogicalAnd),
        (BinOpPrecedenceLevel::LogicalOr, TokenView::Op(Op::OrOr)) => Some(BinOp::LogicalOr),
        _ => None,
    }
}

impl Token {
    /// The binary operator of the given level that the token writes, if
    /// it writes one.
    pub fn to_binop_precedence_level(&self, level: BinOpPrecedenceLevel) -> (op: Option<BinOp>)
        ensures
            op == binop_at_level(self@, level),
    {
        match (level, self) {
            (BinOpPrecedenceLevel::MulDiv, Token::Op(Op::Star)) => Some(BinOp::Multiply),
            (BinOpPrecedenceLevel::MulDiv, Token::Op(Op::Slash)) => Some(BinOp::Divide),
            (BinOpPrecedenceLevel::MulDiv, Token::Op(Op::Percent)) => Some(BinOp::Modulus),
            (BinOpPrecedenceLevel::AddSub, Token::Op(Op::Plus)) => Some(BinOp::Plus),
            (BinOpPrecedenceLevel::AddSub, Token::Op(Op::Minus)) => Some(BinOp::Minus),
            (BinOpPrecedenceLevel::OrderingCmp, Token::Op(Op::LessThan)) => Some(BinOp::LessThan),
            (BinOpPrecedenceLevel::OrderingCmp, Token::Op(Op::LessThanEq)) => Some(
                BinOp::LessThanEq,
            ),
            (BinOpPrecedenceLevel::OrderingCmp, Token::Op(Op::GreaterThan)) => Some(
                BinOp::GreaterThan,
            ),
            (BinOpPrecedenceLevel::OrderingCmp, Token::Op(Op::GreaterThanEq)) => Some(
                BinOp::GreaterThanEq,
            ),
            (BinOpPrecedenceLevel::EqCmp, Token::Op(Op::DoubleEquals)) => Some(BinOp::Equals),
            (BinOpPrecedenceLevel::EqCmp, Token::Op(Op::NotEquals)) => Some(BinOp::NotEquals),
            (BinOpPrecedenceLevel::LogicalAnd, Token::Op(Op::AndAnd)) => Some(BinOp::LogicalAnd),
            (BinOpPrecedenceLevel::LogicalOr, Token::Op(Op::OrOr)) => Some(BinOp::LogicalOr),
            _ => None,
        }
    }
}

// ---------------------------------------------------------------------
// What the tree of a list of tokens is
// ---------------------------------------------------------------------

/// What was parsed, and the index of the first token behind it.
pub struct Parsed<T> {
    pub value: T,
    pub next: int,
}

/// The number of tokens from index `pos` on.
pub open spec fn remaining(tokens: Seq<TokenView>, pos: int) -> nat {
    if pos <= tokens.len() {
        (tokens.len() - pos) as nat
    } else {
        0
    }
}

/// The token at index `pos`, if there is one.
pub open spec fn peek_at(tokens: Seq<TokenView>, pos: int) -> Option<TokenView> {
    if 0 <= pos < tokens.len() {
        Some(tokens[pos])
    } else {
        None
    }
}

/// The index behind the token `t` at index `pos`, or the error if another
/// token or no token is there.
pub open spec fn expect(tokens: Seq<TokenView>, pos: int, t: TokenView) -> Result<
    int,
    CompileErrorView,
> {
    match peek_at(tokens, pos) {
        None => Err(CompileErrorView::UnexpectedEnd),
        Some(found) => if found == t {
            Ok(pos + 1)
        } else {
            Err(CompileErrorView::UnexpectedToken(pos as usize))
        },
    }
}

/// A result of parsing from index `pos`, if it has taken at least one
/// token and no more than there are. Every result of the functions below
/// has (see [`lemma_parse_expr_progress`]); saying so here makes it plain
/// that they are well defined.
pub open spec fn progress<T>(
    tokens: Seq<TokenView>,
    pos: int,
    r: Result<Parsed<T>, CompileErrorView>,
) -> Result<Parsed<T>, CompileErrorView> {
    match r {
        Ok(p) => if pos < p.next <= tokens.len() {
            Ok(p)
        } else {
            Err(CompileErrorView::UnexpectedEnd)
        },
        Err(e) => Err(e),
    }
}

/// The assignment that starts at index `pos`, if one does: the name of the
/// variable and, for `+=` and `-=`, the operator.
pub open spec fn assignment_at(tokens: Seq<TokenView>, pos: int) -> Option<
    (Seq<char>, Option<BinOp>),
> {
    match (peek_at(tokens, pos), peek_at(tokens, pos + 1)) {
        (Some(TokenView::Identifier { val }), Some(TokenView::AssignmentEquals)) => Some(
            (val, None),
        ),
        (Some(TokenView::Identifier { val }), Some(TokenView::Op(Op::PlusEquals))) => Some(
            (val, Some(BinOp::Plus)),
        ),
        (Some(TokenView::Identifier { val }), Some(TokenView::Op(Op::MinusEquals))) => Some(
            (val, Some(BinOp::Minus)),
        ),
        _ => None,
    }
}

/// The tree of an assignment: `n += e` stands for `n = n + e`.
pub open spec fn assign_expr(name: Seq<char>, op: Option<BinOp>, rhs: ExprView) -> ExprView {
    match op {
        None => ExprView::Assign(name, Box::new(rhs)),
        Some(o) => ExprView::Assign(
            name,
            Box::new(ExprView::BinOp(o, Box::new(ExprView::Var(name)), Box::new(rhs))),
        ),
    }
}

/// The expression that starts at index `pos`, with operators of `level`
/// and of the levels that bind more tightly. An assignment and a ternary
/// are expressions of the lowest level only; binary operators of the same
/// level group from the left.
pub open spec fn parse_expr(tokens: Seq<TokenView>, pos: int, level: BinOpPrecedenceLevel) -> Result<
    Parsed<ExprView>,
    CompileErrorView,
>
    decreases remaining(tokens, pos), 2 * level_rank(level) + 1,
{
    if level == lowest() && assignment_at(tokens, pos) is Some {
        match parse_expr(tokens, pos + 2, lowest()) {
            Err(e) => Err(e),
            Ok(rhs) => {
                let (name, op) = assignment_at(tokens, pos)->0;
                Ok(Parsed { value: assign_expr(name, op, rhs.value), next: rhs.next })
            },
        }
    } else {
        match progress(tokens, pos, parse_operand(tokens, pos, level)) {
            Err(e) => Err(e),
            Ok(first) => parse_tail(tokens, first.next, level, first.value),
        }
    }
}

/// An operand of an operator of `level`: an expression of the next level,
/// or a factor if there is no next level.
pub open spec fn parse_operand(tokens: Seq<TokenView>, pos: int, level: BinOpPrecedenceLevel) -> Result<
    Parsed<ExprView>,
    CompileErrorView,
>
    decreases remaining(tokens, pos), 2 * level_rank(level),
{
    match next_level_of(level) {
        Some(next) => parse_expr(tokens, pos, next),
        None => parse_factor(tokens, pos),
    }
}

/// What follows an expression `lhs` that ends before index `pos`: any
/// number of operators of `level` with their right operands, and at the
/// lowest level a ternary, of which `lhs` is then the condition.
pub open spec fn parse_tail(
    tokens: Seq<TokenView>,
    pos: int,
    level: BinOpPrecedenceLevel,
    lhs: ExprView,
) -> Result<Parsed<ExprView>, CompileErrorView>
    decreases remaining(tokens, pos), 0nat,
{
    match peek_at(tokens, pos) {
        None => Ok(Parsed { value: lhs, next: pos }),
        Some(t) => if t == TokenView::QuestionMark && level == lowest() {
            match progress(tokens, pos + 1, parse_expr(tokens, pos + 1, lowest())) {
                Err(e) => Err(e),
                Ok(first) => match expect(tokens, first.next, TokenView::Colon) {
                    Err(e) => Err(e),
                    Ok(p) => match parse_expr(tokens, p, lowest()) {
                        Err(e) => Err(e),
                        Ok(second) => Ok(
                            Parsed {
                                value: ExprView::Ternary(
                                    Box::new(lhs),
                                    Box::new(first.value),
                                    Box::new(second.value),
                                ),
                                next: second.next,
                            },
                        ),
                    },
                },
            }
        } else {
            match binop_at_level(t, level) {
                None => Ok(Parsed { value: lhs, next: pos }),
                Some(op) => match progress(
                    tokens,
                    pos + 1,
                    parse_operand(tokens, pos + 1, level),
                ) {
                    Err(e) => Err(e),
                    Ok(rhs) => parse_tail(
                        tokens,
                        rhs.next,
                        level,
                        ExprView::BinOp(op, Box::new(lhs), Box::new(rhs.value)),
                    ),
                },
            }
        },
    }
}

/// The factor that starts at index `pos`: an expression in parentheses, a
/// unary operator with its factor, a literal, a variable with or without
/// `++` or `--` before or behind it, or a call.
pub open spec fn parse_factor(tokens: Seq<TokenView>, pos: int) -> Result<
    Parsed<ExprView>,
    CompileErrorView,
>
    decreases remaining(tokens, pos), 0nat,
{
    match peek_at(tokens, pos) {
        None => Err(CompileErrorView::UnexpectedEnd),
        Some(TokenView::OpenParen) => match parse_expr(tokens, pos + 1, lowest()) {
            Err(e) => Err(e),
            Ok(inner) => match expect(tokens, inner.next, TokenView::CloseParen) {
                Err(e) => Err(e),
                Ok(p) => Ok(Parsed { value: inner.value, next: p }),
            },
        },
        Some(TokenView::IntLit { val }) => match int_literal_value(val) {
            None => Err(CompileErrorView::InvalidIntLiteral(val)),
            Some(v) => Ok(Parsed { value: ExprView::IntLiteral(v), next: pos + 1 }),
        },
        Some(TokenView::Identifier { val }) => match peek_at(tokens, pos + 1) {
            Some(TokenView::Op(Op::MinusMinus)) => Ok(
                Parsed { value: ExprView::PostfixDec(val), next: pos + 2 },
            ),
            Some(TokenView::Op(Op::PlusPlus)) => Ok(
                Parsed { value: ExprView::PostfixInc(val), next: pos + 2 },
            ),
            Some(TokenView::OpenParen) => match parse_args(tokens, pos + 2) {
                Err(e) => Err(e),
                Ok(args) => match expect(tokens, args.next, TokenView::CloseParen) {
                    Err(e) => Err(e),
                    Ok(p) => Ok(
                        Parsed { value: ExprView::FunctionCall(val, args.value), next: p },
                    ),
                },
            },
            _ => Ok(Parsed { value: ExprView::Var(val), next: pos + 1 }),
        },
        Some(TokenView::Op(Op::PlusPlus)) => match peek_at(tokens, pos + 1) {
            Some(TokenView::Identifier { val }) => Ok(
                Parsed { value: ExprView::PrefixInc(val), next: pos + 2 },
            ),
            Some(_) => Err(CompileErrorView::UnexpectedToken((pos + 1) as usize)),
            None => Err(CompileErrorView::UnexpectedEnd),
        },
        Some(TokenView::Op(Op::MinusMinus)) => match peek_at(tokens, pos + 1) {
            Some(TokenView::Identifier { val }) => Ok(
                Parsed { value: ExprView::PrefixDec(val), next: pos + 2 },
            ),
            Some(_) => Err(CompileErrorView::UnexpectedToken((pos + 1) as usize)),
            None => Err(CompileErrorView::UnexpectedEnd),
        },
        Some(t) => match un_op_of(t) {
            Some(op) => match parse_factor(tokens, pos + 1) {
                Err(e) => Err(e),
                Ok(inner) => Ok(
                    Parsed { value: ExprView::UnOp(op, Box::new(inner.value)), next: inner.next },
                ),
            },
            None => Err(CompileErrorView::UnexpectedToken(pos as usize)),
        },
    }
}

/// The arguments of a call, from index `pos`, which is behind the opening
/// parenthesis, up to the closing one: none, or expressions with commas
/// between them.
pub open spec fn parse_args(tokens: Seq<TokenView>, pos: int) -> Result<
    Parsed<Seq<ExprView>>,
    CompileErrorView,
>
    decreases remaining(tokens, pos), 15nat,
{
    if peek_at(tokens, pos) == Some(TokenView::CloseParen) {
        Ok(Parsed { value: Seq::empty(), next: pos })
    } else {
        parse_args_from(tokens, pos, Seq::empty())
    }
}

/// The arguments from index `pos` on, behind the arguments `done`.
pub open spec fn parse_args_from(tokens: Seq<TokenView>, pos: int, done: Seq<ExprView>) -> Result<
    Parsed<Seq<ExprView>>,
    CompileErrorView,
>
    decreases remaining(tokens, pos), 14nat,
{
    match progress(tokens, pos, parse_expr(tokens, pos, lowest())) {
        Err(e) => Err(e),
        Ok(arg) => if peek_at(tokens, arg.next) == Some(TokenView::Comma) {
            parse_args_from(tokens, arg.next + 1, done.push(arg.value))
        } else {
            Ok(Parsed { value: done.push(arg.value), next: arg.next })
        },
    }
}


/// Parsing consumes tokens: an expression, an operand and a factor take
/// at least one token each, and none of them takes more than there are.
pub proof fn lemma_parse_expr_progress(
    tokens: Seq<TokenView>,
    pos: int,
    level: BinOpPrecedenceLevel,
)
    ensures
        parse_expr(tokens, pos, level) matches Ok(p) ==> pos < p.next <= tokens.len(),
        parse_operand(tokens, pos, level) matches Ok(p) ==> pos < p.next <= tokens.len(),
    decreases remaining(tokens, pos), 2 * level_rank(level) + 1,
{
    match next_level_of(level) {
        Some(next) => lemma_parse_expr_progress(tokens, pos, next),
        None => lemma_parse_factor_progress(tokens, pos),
    }
    if level == lowest() && assignment_at(tokens, pos) is Some {
        lemma_parse_expr_progress(tokens, pos + 2, lowest());
    } else {
        if let Ok(first) = progress(tokens, pos, parse_operand(tokens, pos, level)) {
            lemma_parse_tail_progress(tokens, first.next, level, first.value);
        }
    }
}

/// What follows an expression ends at or behind its start, and within
/// the tokens.
pub proof fn lemma_parse_tail_progress(
    tokens: Seq<TokenView>,
    pos: int,
    level: BinOpPrecedenceLevel,
    lhs: ExprView,
)
    requires
        pos <= tokens.len(),
    ensures
        parse_tail(tokens, pos, level, lhs) matches Ok(p) ==> pos <= p.next <= tokens.len(),
    decreases remaining(tokens, pos), 0nat,
{
    if let Some(t) = peek_at(tokens, pos) {
        if t == TokenView::QuestionMark && level == lowest() {
            if let Ok(first) = progress(tokens, pos + 1, parse_expr(tokens, pos + 1, lowest())) {
                if let Ok(p) = expect(tokens, first.next, TokenView::Colon) {
                    lemma_parse_expr_progress(tokens, p, lowest());
                }
            }
        } else if let Some(op) = binop_at_level(t, level) {
            if let Ok(rhs) = progress(tokens, pos + 1, parse_operand(tokens, pos + 1, level)) {
                lemma_parse_tail_progress(
                    tokens,
                    rhs.next,
                    level,
                    ExprView::BinOp(op, Box::new(lhs), Box::new(rhs.value)),
                );
            }
        }
    }
}

/// A factor takes at least one token and no more than there are.
pub proof fn lemma_parse_factor_progress(tokens: Seq<TokenView>, pos: int)
    ensures
        parse_factor(tokens, pos) matches Ok(p) ==> pos < p.next <= tokens.len(),
    decreases remaining(tokens, pos), 0nat,
{
    match peek_at(tokens, pos) {
        Some(TokenView::OpenParen) => {
            lemma_parse_expr_progress(tokens, pos + 1, lowest());
        },
        Some(TokenView::Identifier { val }) => {
            if peek_at(tokens, pos + 1) == Some(TokenView::OpenParen) {
                lemma_parse_args_progress(tokens, pos + 2);
            }
        },
        Some(TokenView::IntLit { val }) => {},
        Some(TokenView::Op(Op::PlusPlus)) => {},
        Some(TokenView::Op(Op::MinusMinus)) => {},
        Some(t) => {
            if un_op_of(t) is Some {
                lemma_parse_factor_progress(tokens, pos + 1);
            }
        },
        None => {},
    }
}

/// The arguments of a call end at or behind their start, and within the
/// tokens.
pub proof fn lemma_parse_args_progress(tokens: Seq<TokenView>, pos: int)
    requires
        pos <= tokens.len(),
    ensures
        parse_args(tokens, pos) matches Ok(p) ==> pos <= p.next <= tokens.len(),
    decreases remaining(tokens, pos), 15nat,
{
    if peek_at(tokens, pos) != Some(TokenView::CloseParen) {
        lemma_parse_args_from_progress(tokens, pos, Seq::empty());
    }
}

/// Arguments take at least one token and no more than there are.
pub proof fn lemma_parse_args_from_progress(tokens: Seq<TokenView>, pos: int, done: Seq<ExprView>)
    ensures
        parse_args_from(tokens, pos, done) matches Ok(p) ==> pos < p.next <= tokens.len(),
    decreases remaining(tokens, pos), 14nat,
{
    if let Ok(arg) = progress(tokens, pos, parse_expr(tokens, pos, lowest())) {
        if peek_at(tokens, arg.next) == Some(TokenView::Comma) {
            lemma_parse_args_from_progress(tokens, arg.next + 1, done.push(arg.value));
        }
    }
}

// ---------------------------------------------------------------------
// The parser
// ---------------------------------------------------------------------

/// What a parsing function returns, and where it leaves the cursor, are
/// as the model says.
pub open spec fn parsed_expr_as(
    res: Result<Expr, CompileError>,
    index_after: int,
    model: Result<Parsed<ExprView>, CompileErrorView>,
) -> bool {
    match model {
        Ok(p) => res matches Ok(e) && e@ == p.value && index_after == p.next,
        Err(err) => res matches Err(x) && x@ == err,
    }
}

/// Moves the cursor behind the next token if it is the expected one.
pub fn expect_token(tokens: &mut TokenCursor, expected: &Token) -> (res: Result<(), CompileError>)
    requires
        old(tokens).wf(),
    ensures
        final(tokens).wf(),
        final(tokens)@.contents == old(tokens)@.contents,
        match expect(old(tokens)@.contents, old(tokens)@.index, expected@) {
            Ok(p) => res is Ok && final(tokens)@.index == p,
            Err(e) => res matches Err(x) && x@ == e,
        },
{
    let found = match tokens.peek() {
        None => {
            return Err(CompileError::UnexpectedEnd);
        },
        Some(t) => same_token(t, expected),
    };
    if found {
        tokens.next();
        Ok(())
    } else {
        Err(CompileError::UnexpectedToken(tokens.position()))
    }
}

/// Whether two tokens are the same token.
pub fn same_token(a: &Token, b: &Token) -> (same: bool)
    ensures
        same == (a@ == b@),
{
    match (a, b) {
        (Token::OpenParen, Token::OpenParen) => true,
        (Token::CloseParen, Token::CloseParen) => true,
        (Token::OpenBrace, Token::OpenBrace) => true,
        (Token::CloseBrace, Token::CloseBrace) => true,
        (Token::Semicolon, Token::Semicolon) => true,
        (Token::Comma, Token::Comma) => true,
        (Token::Colon, Token::Colon) => true,
        (Token::QuestionMark, Token::QuestionMark) => true,
        (Token::IntLit { val: x }, Token::IntLit { val: y }) => *x == *y,
        (Token::Identifier { val: x }, Token::Identifier { val: y }) => *x == *y,
        (Token::Return, Token::Return) => true,
        (Token::If, Token::If) => true,
        (Token::Else, Token::Else) => true,
        (Token::While, Token::While) => true,
        (Token::For, Token::For) => true,
        (Token::Break, Token::Break) => true,
        (Token::Continue, Token::Continue) => true,
        (Token::AssignmentEquals, Token::AssignmentEquals) => true,
        (Token::Op(x), Token::Op(y)) => *x == *y,
        (Token::Type(x), Token::Type(y)) => x.same_as(y),
        _ => false,
    }
}

fn assignment_here(tokens: &TokenCursor) -> (found: Option<(String, Option<BinOp>)>)
    requires
        tokens.wf(),
    ensures
        match assignment_at(tokens@.contents, tokens@.index) {
            Some((n, op)) => found matches Some(pair) && pair.0@ == n && pair.1 == op,
            None => found is None,
        },
{
    match tokens.peek() {
        Some(Token::Identifier { val }) => match tokens.peek_nth(2) {
            Some(Token::AssignmentEquals) => Some((val.clone(), None)),
            Some(Token::Op(Op::PlusEquals)) => Some((val.clone(), Some(BinOp::Plus))),
            Some(Token::Op(Op::MinusEquals)) => Some((val.clone(), Some(BinOp::Minus))),
            _ => None,
        },
        _ => None,
    }
}

fn make_assign(name: String, op: Option<BinOp>, rhs: Expr) -> (e: Expr)
    ensures
        e@ == assign_expr(name@, op, rhs@),
{
    match op {
        None => Expr::Assign(name, Box::new(rhs)),
        Some(o) => {
            let ghost right = rhs@;
            let var = Expr::Var(name.clone());
            assert(var@ == ExprView::Var(name@));
            let sum = Expr::BinOp(o, Box::new(var), Box::new(rhs));
            assert(sum@ == ExprView::BinOp(
                o,
                Box::new(ExprView::Var(name@)),
                Box::new(right),
            ));
            Expr::Assign(name, Box::new(sum))
        },
    }
}

fn generate_operand_ast(tokens: &mut TokenCursor, level: BinOpPrecedenceLevel) -> (res: Result<
    Expr,
    CompileError,
>)
    requires
        old(tokens).wf(),
    ensures
        final(tokens).wf(),
        final(tokens)@.contents == old(tokens)@.contents,
        parsed_expr_as(
            res,
            final(tokens)@.index,
            parse_operand(old(tokens)@.contents, old(tokens)@.index, level),
        ),
        res is Ok ==> old(tokens)@.index < final(tokens)@.index,
    decreases remaining(old(tokens)@.contents, old(tokens)@.index), 2 * level_rank(level),
{
    match level.next_level() {
        Some(next) => generate_expr_ast(tokens, next),
        None => generate_factor_ast(tokens),
    }
}

/// Parses the expression at the cursor, with operators of the given level
/// and of the levels that bind more tightly, and moves the cursor behind
/// it.
pub fn generate_expr_ast(
    tokens: &mut TokenCursor,
    curr_operator_precedence: BinOpPrecedenceLevel,
) -> (res: Result<Expr, CompileError>)
    requires
        old(tokens).wf(),
    ensures
        final(tokens).wf(),
        final(tokens)@.contents == old(tokens)@.contents,
        parsed_expr_as(
            res,
            final(tokens)@.index,
            parse_expr(old(tokens)@.contents, old(tokens)@.index, curr_operator_precedence),
        ),
        res is Ok ==> old(tokens)@.index < final(tokens)@.index,
    decreases
            remaining(old(tokens)@.contents, old(tokens)@.index),
            2 * level_rank(curr_operator_precedence) + 1,
{
    let ghost toks = tokens@.contents;
    let ghost start = tokens@.index;
    let level = curr_operator_precedence;
    let at_lowest = match level {
        BinOpPrecedenceLevel::LogicalOr => true,
        _ => false,
    };
    if at_lowest {
        match assignment_here(tokens) {
            Some((name, op)) => {
                tokens.next();
                tokens.next();
                let rhs_expr = match generate_expr_ast(tokens, BinOpPrecedenceLevel::lowest_level()) {
                    Ok(e) => e,
                    Err(e) => {
                        return Err(e);
                    },
                };
                return Ok(make_assign(name, op, rhs_expr));
            },
            None => {},
        }
    }
    let mut expr = match generate_operand_ast(tokens, level) {
        Ok(e) => e,
        Err(e) => {
            return Err(e);
        },
    };

    loop
        invariant_except_break
            parse_expr(toks, start, level) == parse_tail(toks, tokens@.index, level, expr@),
        invariant
            tokens.wf(),
            tokens@.contents == toks,
            toks == old(tokens)@.contents,
            start == old(tokens)@.index,
            start < tokens@.index,
            level == curr_operator_precedence,
            at_lowest == (level == lowest()),
        ensures
            parse_expr(toks, start, level) == Ok::<Parsed<ExprView>, CompileErrorView>(
                Parsed { value: expr@, next: tokens@.index },
            ),
        decreases remaining(toks, tokens@.index),
    {
        let (is_question, next_op) = match tokens.peek() {
            None => {
                break;
            },
            Some(t) => (
                match t {
                    Token::QuestionMark => true,
                    _ => false,
                },
                t.to_binop_precedence_level(level),
            ),
        };
        if is_question && at_lowest {
            // a ternary binds least tightly of all
            tokens.next();
            let first_expr = match generate_expr_ast(tokens, BinOpPrecedenceLevel::lowest_level()) {
                Ok(e) => e,
                Err(e) => {
                    return Err(e);
                },
            };
            match expect_token(tokens, &Token::Colon) {
                Ok(()) => {},
                Err(e) => {
                    return Err(e);
                },
            }
            let second_expr = match generate_expr_ast(tokens, BinOpPrecedenceLevel::lowest_level()) {
                Ok(e) => e,
                Err(e) => {
                    return Err(e);
                },
            };
            return Ok(Expr::Ternary(Box::new(expr), Box::new(first_expr), Box::new(second_expr)));
        }
        match next_op {
            Some(op) => {
                tokens.next();
                let next_expr = match generate_operand_ast(tokens, level) {
                    Ok(e) => e,
                    Err(e) => {
                        return Err(e);
                    },
                };
                expr = Expr::BinOp(op, Box::new(expr), Box::new(next_expr));
            },
            None => {
                break;
            },
        }
    }
    Ok(expr)
}

/// Parses the factor at the cursor and moves the cursor behind it.
pub fn generate_factor_ast(tokens: &mut TokenCursor) -> (res: Result<Expr, CompileError>)
    requires
        old(tokens).wf(),
    ensures
        final(tokens).wf(),
        final(tokens)@.contents == old(tokens)@.contents,
        parsed_expr_as(
            res,
            final(tokens)@.index,
            parse_factor(old(tokens)@.contents, old(tokens)@.index),
        ),
        res is Ok ==> old(tokens)@.index < final(tokens)@.index,
    decreases remaining(old(tokens)@.contents, old(tokens)@.index), 0nat,
{
    let ghost toks = tokens@.contents;
    let ghost start = tokens@.index;
    match tokens.peek() {
        None => Err(CompileError::UnexpectedEnd),
        Some(Token::OpenParen) => {
            tokens.next();
            let expr = match generate_expr_ast(tokens, BinOpPrecedenceLevel::lowest_level()) {
                Ok(e) => e,
                Err(e) => {
                    return Err(e);
                },
            };
            match expect_token(tokens, &Token::CloseParen) {
                Ok(()) => Ok(expr),
                Err(e) => Err(e),
            }
        },
        Some(Token::IntLit { val }) => {
            match parse_int_literal(val) {
                Some(v) => {
                    tokens.next();
                    Ok(Expr::IntLiteral(v))
                },
                None => Err(CompileError::InvalidIntLiteral(val.clone())),
            }
        },
        Some(Token::Identifier { val }) => {
            let val = val.clone();
            tokens.next();
            let follow: u8 = match tokens.peek() {
                Some(Token::Op(Op::MinusMinus)) => 1,
                Some(Token::Op(Op::PlusPlus)) => 2,
                Some(Token::OpenParen) => 3,
                _ => 0,
            };
            if follow == 1 {
                tokens.next();
                Ok(Expr::PostfixDec(val))
            } else if follow == 2 {
                tokens.next();
                Ok(Expr::PostfixInc(val))
            } else if follow == 3 {
                tokens.next();
                let args = match parse_function_args(tokens) {
                    Ok(a) => a,
                    Err(e) => {
                        return Err(e);
                    },
                };
                proof {
                    lemma_expr_list_view(args);
                }
                match expect_token(tokens, &Token::CloseParen) {
                    Ok(()) => Ok(Expr::FunctionCall(val, args)),
                    Err(e) => Err(e),
                }
            } else {
                Ok(Expr::Var(val))
            }
        },
        Some(Token::Op(Op::PlusPlus)) => {
            tokens.next();
            match tokens.peek() {
                Some(Token::Identifier { val }) => {
                    let val = val.clone();
                    tokens.next();
                    Ok(Expr::PrefixInc(val))
                },
                Some(_) => Err(CompileError::UnexpectedToken(tokens.position())),
                None => Err(CompileError::UnexpectedEnd),
            }
        },
        Some(Token::Op(Op::MinusMinus)) => {
            tokens.next();
            match tokens.peek() {
                Some(Token::Identifier { val }) => {
                    let val = val.clone();
                    tokens.next();
                    Ok(Expr::PrefixDec(val))
                },
                Some(_) => Err(CompileError::UnexpectedToken(tokens.position())),
                None => Err(CompileError::UnexpectedEnd),
            }
        },
        Some(token) => {
            match token.to_un_op() {
                Some(un_op) => {
                    tokens.next();
                    match generate_factor_ast(tokens) {
                        Ok(factor) => Ok(Expr::UnOp(un_op, Box::new(factor))),
                        Err(e) => Err(e),
                    }
                },
                None => Err(CompileError::UnexpectedToken(tokens.position())),
            }
        },
    }
}

/// Parses the arguments of a call. The cursor is behind the opening
/// parenthesis and ends up at the closing one.
pub fn parse_function_args(tokens: &mut TokenCursor) -> (res: Result<Vec<Expr>, CompileError>)
    requires
        old(tokens).wf(),
    ensures
        final(tokens).wf(),
        final(tokens)@.contents == old(tokens)@.contents,
        match parse_args(old(tokens)@.contents, old(tokens)@.index) {
            Ok(p) => res matches Ok(args) && exprs_view(args@) == p.value && final(tokens)@.index
                == p.next,
            Err(e) => res matches Err(x) && x@ == e,
        },
        res is Ok ==> old(tokens)@.index <= final(tokens)@.index,
    decreases remaining(old(tokens)@.contents, old(tokens)@.index), 15nat,
{
    let ghost toks = tokens@.contents;
    let ghost start = tokens@.index;
    let mut args: Vec<Expr> = Vec::new();
    assert(exprs_view(args@) =~= Seq::<ExprView>::empty());
    match tokens.peek() {
        Some(Token::CloseParen) => {
            return Ok(args);
        },
        _ => {},
    }
    loop
        invariant_except_break
            parse_args(toks, start) == parse_args_from(toks, tokens@.index, exprs_view(args@)),
        invariant
            tokens.wf(),
            tokens@.contents == toks,
            toks == old(tokens)@.contents,
            start == old(tokens)@.index,
            start <= tokens@.index,
        ensures
            parse_args(toks, start) == Ok::<Parsed<Seq<ExprView>>, CompileErrorView>(
                Parsed { value: exprs_view(args@), next: tokens@.index },
            ),
        decreases remaining(toks, tokens@.index),
    {
        let ghost done = exprs_view(args@);
        let arg = match generate_expr_ast(tokens, BinOpPrecedenceLevel::lowest_level()) {
            Ok(e) => e,
            Err(e) => {
                return Err(e);
            },
        };
        args.push(arg);
        assert(exprs_view(args@) =~= done.push(arg@));
        let comma = match tokens.peek() {
            Some(Token::Comma) => true,
            _ => false,
        };
        if comma {
            tokens.next();
        } else {
            break;
        }
    }
    Ok(args)
}

} // verus!
