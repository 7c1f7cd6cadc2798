//! The parser for `for` loops.

use vstd::prelude::*;
use crate::errors::{CompileError, CompileErrorView};
use crate::parser::expr_parser::{
    expect, expect_token, generate_expr_ast, lemma_parse_expr_progress, lowest, parse_expr,
    peek_at, BinOpPrecedenceLevel, Expr, ExprView, Parsed,
};
use crate::parser::{
    expect_name, expect_type, generate_expr_then, generate_statement_ast, name_at,
    parse_expr_then, parse_for, parsed_stmt_as, type_at, Statement, StatementView, TokenCursor,
};
use crate::tokenizer::{Token, TokenView};

verus! {

/// The declaration in the parentheses of a `for`: a type, a name, `=` and
/// an initial value.
pub open spec fn parse_for_decl(tokens: Seq<TokenView>, pos: int) -> Result<
    Parsed<StatementView>,
    CompileErrorView,
> {
    match type_at(tokens, pos) {
        Err(e) => Err(e),
        Ok(t) => match name_at(tokens, pos + 1) {
            Err(e) => Err(e),
            Ok(n) => match expect(tokens, pos + 2, TokenView::AssignmentEquals) {
                Err(e) => Err(e),
                Ok(p) => match parse_expr(tokens, p, lowest()) {
                    Err(e) => Err(e),
                    Ok(init) => Ok(
                        Parsed {
                            value: StatementView::Declare(n, Some(init.value), t),
                            next: init.next,
                        },
                    ),
                },
            },
        },
    }
}

/// The first of the three parts in the parentheses of a `for`, with its
/// semicolon: a declaration with an initial value, nothing, or an
/// expression.
pub open spec fn parse_for_init(tokens: Seq<TokenView>, pos: int) -> Result<
    Parsed<StatementView>,
    CompileErrorView,
> {
    match peek_at(tokens, pos) {
        Some(TokenView::Type(_)) => match parse_for_decl(tokens, pos) {
            Err(e) => Err(e),
            Ok(d) => match expect(tokens, d.next, TokenView::Semicolon) {
                Err(e) => Err(e),
                Ok(p) => Ok(Parsed { value: d.value, next: p }),
            },
        },
        Some(TokenView::Semicolon) => Ok(Parsed { value: StatementView::Empty, next: pos + 1 }),
        _ => match parse_expr_then(tokens, pos, TokenView::Semicolon) {
            Err(e) => Err(e),
            Ok(r) => Ok(Parsed { value: StatementView::Expr(r.value), next: r.next }),
        },
    }
}

/// An expression that may be absent, with the token `t` that follows it.
pub open spec fn parse_opt_expr_then(tokens: Seq<TokenView>, pos: int, t: TokenView) -> Result<
    Parsed<Option<ExprView>>,
    CompileErrorView,
> {
    if peek_at(tokens, pos) == Some(t) {
        Ok(Parsed { value: None, next: pos + 1 })
    } else {
        match parse_expr_then(tokens, pos, t) {
            Err(e) => Err(e),
            Ok(r) => Ok(Parsed { value: Some(r.value), next: r.next }),
        }
    }
}

/// What stands before the body of the `for` whose keyword is at index
/// `pos`: in parentheses, an initial statement, a condition and an
/// expression to compute after each round, the last two of which may be
/// absent.
pub open spec fn parse_for_header(tokens: Seq<TokenView>, pos: int) -> Result<
    Parsed<(StatementView, Option<ExprView>, Option<ExprView>)>,
    CompileErrorView,
> {
    match expect(tokens, pos, TokenView::For) {
        Err(e) => Err(e),
        Ok(pos0) => match expect(tokens, pos0, TokenView::OpenParen) {
            Err(e) => Err(e),
            Ok(pos1) => match parse_for_init(tokens, pos1) {
                Err(e) => Err(e),
                Ok(init) => match parse_opt_expr_then(tokens, init.next, TokenView::Semicolon) {
                    Err(e) => Err(e),
                    Ok(cond) => match parse_opt_expr_then(
                        tokens,
                        cond.next,
                        TokenView::CloseParen,
                    ) {
                        Err(e) => Err(e),
                        Ok(post) => Ok(
                            Parsed {
                                value: (init.value, cond.value, post.value),
                                next: post.next,
                            },
                        ),
                    },
                },
            },
        },
    }
}

/// An expression with the token behind it takes at least two tokens.
pub proof fn lemma_expr_then_progress(tokens: Seq<TokenView>, pos: int, t: TokenView)
    ensures
        parse_expr_then(tokens, pos, t) matches Ok(p) ==> pos + 1 < p.next <= tokens.len(),
{
    lemma_parse_expr_progress(tokens, pos, lowest());
}

/// The header of a `for` takes at least one token and no more than there
/// are.
pub proof fn lemma_for_header_progress(tokens: Seq<TokenView>, pos: int)
    ensures
        parse_for_header(tokens, pos) matches Ok(p) ==> pos < p.next <= tokens.len(),
{
    if let Ok(pos0) = expect(tokens, pos, TokenView::For) {
        if let Ok(pos1) = expect(tokens, pos0, TokenView::OpenParen) {
            lemma_expr_then_progress(tokens, pos1, TokenView::Semicolon);
            lemma_parse_expr_progress(tokens, pos1 + 3, lowest());
            if let Ok(init) = parse_for_init(tokens, pos1) {
                lemma_expr_then_progress(tokens, init.next, TokenView::Semicolon);
                if let Ok(cond) = parse_opt_expr_then(tokens, init.next, TokenView::Semicolon) {
                    lemma_expr_then_progress(tokens, cond.next, TokenView::CloseParen);
                }
            }
        }
    }
}


/// Parses an expression that may be absent, and the token that follows
/// it.
fn generate_opt_expr_then(tokens: &mut TokenCursor, expected: &Token) -> (res: Result<
    Option<Expr>,
    CompileError,
>)
    requires
        old(tokens).wf(),
    ensures
        final(tokens).wf(),
        final(tokens)@.contents == old(tokens)@.contents,
        match parse_opt_expr_then(old(tokens)@.contents, old(tokens)@.index, expected@) {
            Ok(p) => res matches Ok(e) && crate::parser::opt_expr_view(e) == p.value && final(tokens)@.index == p.next,
            Err(err) => res matches Err(x) && x@ == err,
        },
        res is Ok ==> old(tokens)@.index < final(tokens)@.index,
{
    let absent = match tokens.peek() {
        Some(t) => crate::parser::expr_parser::same_token(t, expected),
        None => false,
    };
    if absent {
        tokens.next();
        Ok(None)
    } else {
        match generate_expr_then(tokens, expected) {
            Ok(e) => Ok(Some(e)),
            Err(e) => Err(e),
        }
    }
}

/// Parses the `for` statement at the cursor and moves the cursor behind
/// it.
pub fn generate_for_loop_ast(tokens: &mut TokenCursor) -> (res: Result<Statement, CompileError>)
    requires
        old(tokens).wf(),
    ensures
        final(tokens).wf(),
        final(tokens)@.contents == old(tokens)@.contents,
        parsed_stmt_as(
            res,
            final(tokens)@.index,
            parse_for(old(tokens)@.contents, old(tokens)@.index),
        ),
        res is Ok ==> old(tokens)@.index < final(tokens)@.index,
    decreases
            crate::parser::expr_parser::remaining(old(tokens)@.contents, old(tokens)@.index),
            0nat,
{
    let ghost toks = tokens@.contents;
    let ghost start = tokens@.index;
    match expect_token(tokens, &Token::For) {
        Ok(()) => {},
        Err(e) => {
            return Err(e);
        },
    }
    match expect_token(tokens, &Token::OpenParen) {
        Ok(()) => {},
        Err(e) => {
            return Err(e);
        },
    }
    let kind: u8 = match tokens.peek() {
        Some(Token::Type(_)) => 1,
        Some(Token::Semicolon) => 2,
        _ => 0,
    };
    let initial_clause = if kind == 1 {
        // the first part is a declaration
        let decl = match generate_for_loop_decl_expr(tokens) {
            Ok(d) => d,
            Err(e) => {
                return Err(e);
            },
        };
        match expect_token(tokens, &Token::Semicolon) {
            Ok(()) => {},
            Err(e) => {
                return Err(e);
            },
        }
        decl
    } else if kind == 2 {
        tokens.next();
        Statement::Empty
    } else {
        match generate_expr_then(tokens, &Token::Semicolon) {
            Ok(e) => Statement::Expr(e),
            Err(e) => {
                return Err(e);
            },
        }
    };
    assert(parse_for_init(toks, start + 2) == Ok::<Parsed<StatementView>, CompileErrorView>(
        Parsed { value: initial_clause@, next: tokens@.index },
    ));
    let controlling_expr = match generate_opt_expr_then(tokens, &Token::Semicolon) {
        Ok(e) => e,
        Err(e) => {
            return Err(e);
        },
    };
    let post_expr = match generate_opt_expr_then(tokens, &Token::CloseParen) {
        Ok(e) => e,
        Err(e) => {
            return Err(e);
        },
    };
    let ghost header = parse_for_header(toks, start)->Ok_0;
    assert(parse_for_header(toks, start) is Ok);
    assert(header.next == tokens@.index);
    assert(header.value.0 == initial_clause@);
    match generate_statement_ast(tokens) {
        Ok(loop_body) => {
            let ghost init_view = initial_clause@;
            let ghost body_view = loop_body@;
            let whole = Statement::For(
                Box::new(initial_clause),
                controlling_expr,
                post_expr,
                Box::new(loop_body),
            );
            assert(whole@ == StatementView::For(
                Box::new(init_view),
                crate::parser::opt_expr_view(controlling_expr),
                crate::parser::opt_expr_view(post_expr),
                Box::new(body_view),
            ));
            Ok(whole)
        },
        Err(e) => Err(e),
    }
}

/// Parses the declaration in the parentheses of a `for` and moves the
/// cursor behind its initial value.
pub fn generate_for_loop_decl_expr(tokens: &mut TokenCursor) -> (res: Result<
    Statement,
    CompileError,
>)
    requires
        old(tokens).wf(),
    ensures
        final(tokens).wf(),
        final(tokens)@.contents == old(tokens)@.contents,
        parsed_stmt_as(
            res,
            final(tokens)@.index,
            parse_for_decl(old(tokens)@.contents, old(tokens)@.index),
        ),
        res is Ok ==> old(tokens)@.index < final(tokens)@.index,
{
    let t = match expect_type(tokens) {
        Ok(t) => t,
        Err(e) => {
            return Err(e);
        },
    };
    let decl_identifier = match expect_name(tokens) {
        Ok(n) => n,
        Err(e) => {
            return Err(e);
        },
    };
    match expect_token(tokens, &Token::AssignmentEquals) {
        Ok(()) => {},
        Err(e) => {
            return Err(e);
        },
    }
    match generate_expr_ast(tokens, BinOpPrecedenceLevel::lowest_level()) {
        Ok(expr) => Ok(Statement::Declare(decl_identifier, Some(expr), t)),
        Err(e) => Err(e),
    }
}

} // verus!
