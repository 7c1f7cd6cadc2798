//! The syntax tree and the parser that builds it from tokens.

pub mod expr_parser;
pub mod for_loop_parser;

use vstd::prelude::*;
use crate::errors::{CompileError, CompileErrorView};
use crate::parser::expr_parser::{
    expect, expect_token, generate_expr_ast, lemma_parse_expr_progress, lowest, parse_expr,
    peek_at, progress, remaining, BinOpPrecedenceLevel, Expr, ExprView, Parsed,
};
use crate::parser::for_loop_parser::{
    generate_for_loop_ast, lemma_for_header_progress, parse_for_header,
};
use crate::tokenizer::{tokens_view, Token, TokenView};
use crate::types::VarType;

verus! {

/// A place in a list of tokens.
pub struct TokenCursor {
    contents: Vec<Token>,
    index: usize,
}

/// The mathematical value of a [`TokenCursor`]: the tokens and the index
/// of the next one.
pub struct TokenCursorView {
    pub contents: Seq<TokenView>,
    pub index: int,
}

impl View for TokenCursor {
    type V = TokenCursorView;

    closed spec fn view(&self) -> TokenCursorView {
        TokenCursorView { contents: tokens_view(self.contents@), index: self.index as int }
    }
}

impl TokenCursor {
    /// The cursor is within its tokens or at their end.
    pub open spec fn wf(&self) -> bool {
        0 <= self@.index <= self@.contents.len()
    }

    /// A cursor at the first of the tokens.
    pub fn new(contents: Vec<Token>) -> (cursor: TokenCursor)
        ensures
            cursor.wf(),
            cursor@.contents == tokens_view(contents@),
            cursor@.index == 0,
    {
        TokenCursor { contents, index: 0 }
    }

    /// The index of the next token.
    pub fn position(&self) -> (index: usize)
        ensures
            index == self@.index,
    {
        self.index
    }

    /// The next token, if there is one.
    pub fn peek(&self) -> (t: Option<&Token>)
        requires
            self.wf(),
        ensures
            match peek_at(self@.contents, self@.index) {
                Some(v) => t matches Some(x) && x@ == v,
                None => t is None,
            },
    {
        if self.index < self.contents.len() {
            Some(&self.contents[self.index])
        } else {
            None
        }
    }

    /// The token `n - 1` places behind the next one, if there is one:
    /// `peek_nth(1)` is `peek()`.
    pub fn peek_nth(&self, n: usize) -> (t: Option<&Token>)
        requires
            self.wf(),
            n >= 1,
        ensures
            match peek_at(self@.contents, self@.index + n - 1) {
                Some(v) => t matches Some(x) && x@ == v,
                None => t is None,
            },
    {
        if n - 1 < self.contents.len() - self.index {
            Some(&self.contents[self.index + (n - 1)])
        } else {
            None
        }
    }

    /// The next token, if there is one; the cursor moves behind it.
    pub fn next(&mut self) -> (t: Option<&Token>)
        requires
            old(self).wf(),
        ensures
            final(self).wf(),
            final(self)@.contents == old(self)@.contents,
            final(self)@.index == if old(self)@.index < old(self)@.contents.len() {
                old(self)@.index + 1
            } else {
                old(self)@.index
            },
            match peek_at(old(self)@.contents, old(self)@.index) {
                Some(v) => t matches Some(x) && x@ == v,
                None => t is None,
            },
    {
        if self.index < self.contents.len() {
            self.index = self.index + 1;
            Some(&self.contents[self.index - 1])
        } else {
            None
        }
    }
}

/// A statement.
#[derive(Debug, PartialEq, Eq)]
pub enum Statement {
    Continue,
    Break,
    Return(Expr),
    /// The name of the variable, its initial value if it has one, and its
    /// type.
    Declare(String, Option<Expr>, VarType),
    CompoundStmt(Vec<Statement>),
    /// Condition, statement if it is not zero, statement if it is zero.
    If(Expr, Box<Statement>, Option<Box<Statement>>),
    /// Condition and body.
    While(Expr, Box<Statement>),
    /// Initial statement, condition, expression after each round, body.
    For(Box<Statement>, Option<Expr>, Option<Expr>, Box<Statement>),
    Expr(Expr),
    Empty,
}

/// The mathematical value of a [`Statement`].
pub enum StatementView {
    Continue,
    Break,
    Return(ExprView),
    Declare(Seq<char>, Option<ExprView>, VarType),
    CompoundStmt(Seq<StatementView>),
    If(ExprView, Box<StatementView>, Option<Box<StatementView>>),
    While(ExprView, Box<StatementView>),
    For(Box<StatementView>, Option<ExprView>, Option<ExprView>, Box<StatementView>),
    Expr(ExprView),
    Empty,
}

/// The mathematical value of an expression that may be absent.
pub open spec fn opt_expr_view(e: Option<Expr>) -> Option<ExprView> {
    match e {
        Some(x) => Some(x@),
        None => None,
    }
}

/// The mathematical value of a statement: the same tree, with each name
/// as a sequence of characters.
pub open spec fn stmt_model(s: Statement) -> StatementView
    decreases s,
{
    match s {
        Statement::Continue => StatementView::Continue,
        Statement::Break => StatementView::Break,
        Statement::Return(e) => StatementView::Return(e@),
        Statement::Declare(n, init, ty) => StatementView::Declare(n@, opt_expr_view(init), ty),
        Statement::CompoundStmt(stmts) => StatementView::CompoundStmt(stmts_model(stmts)),
        Statement::If(c, t, e) => StatementView::If(
            c@,
            Box::new(stmt_model(*t)),
            match e {
                Some(x) => Some(Box::new(stmt_model(*x))),
                None => None,
            },
        ),
        Statement::While(c, body) => StatementView::While(c@, Box::new(stmt_model(*body))),
        Statement::For(init, cond, post, body) => StatementView::For(
            Box::new(stmt_model(*init)),
            opt_expr_view(cond),
            opt_expr_view(post),
            Box::new(stmt_model(*body)),
        ),
        Statement::Expr(e) => StatementView::Expr(e@),
        Statement::Empty => StatementView::Empty,
    }
}

/// The mathematical values of the statements of a list, in order.
pub open spec fn stmts_model(stmts: Vec<Statement>) -> Seq<StatementView>
    decreases stmts,
{
    Seq::new(
        stmts@.len(),
        |i: int|
            if 0 <= i < stmts@.len() {
                stmt_model(stmts@[i])
            } else {
                StatementView::Empty
            },
    )
}

impl View for Statement {
    type V = StatementView;

    open spec fn view(&self) -> StatementView {
        stmt_model(*self)
    }
}

/// The mathematical values of a list of statements.
pub open spec fn stmts_view(stmts: Seq<Statement>) -> Seq<StatementView> {
    Seq::new(stmts.len(), |i: int| stmts[i]@)
}

/// The list inside a compound statement is the list of the values of its
/// statements.
pub proof fn lemma_stmt_list_view(stmts: Vec<Statement>)
    ensures
        stmts_model(stmts) == stmts_view(stmts@),
{
    assert(stmts_model(stmts) =~= stmts_view(stmts@));
}

/// The number of statements of a statement, itself included: a measure
/// that every part of a statement has less of than the statement.
pub open spec fn stmt_height(s: StatementView) -> nat
    decreases s,
{
    match s {
        StatementView::CompoundStmt(stmts) => 1 + stmt_heights(stmts),
        StatementView::If(_, t, e) => 1 + stmt_height(*t) + match e {
            Some(x) => stmt_height(*x),
            None => 0,
        },
        StatementView::While(_, body) => 1 + stmt_height(*body),
        StatementView::For(init, _, _, body) => 1 + stmt_height(*init) + stmt_height(*body),
        _ => 1,
    }
}

/// The number of statements of a list of statements.
pub open spec fn stmt_heights(stmts: Seq<StatementView>) -> nat
    decreases stmts,
{
    if stmts.len() == 0 {
        0
    } else {
        stmt_heights(stmts.drop_last()) + stmt_height(stmts.last()) + 1
    }
}

/// A statement of a list has no more statements than the list.
pub proof fn lemma_stmt_heights_bound(stmts: Seq<StatementView>, i: int)
    requires
        0 <= i < stmts.len(),
    ensures
        stmt_height(stmts[i]) < stmt_heights(stmts),
    decreases stmts.len(),
{
    if i < stmts.len() - 1 {
        lemma_stmt_heights_bound(stmts.drop_last(), i);
    }
}

/// A function: its name and the statements of its body.
#[derive(Debug, PartialEq, Eq)]
pub struct Function {
    pub name: String,
    pub body: Vec<Statement>,
}

/// The mathematical value of a [`Function`].
pub struct FunctionView {
    pub name: Seq<char>,
    pub body: Seq<StatementView>,
}

impl View for Function {
    type V = FunctionView;

    open spec fn view(&self) -> FunctionView {
        FunctionView { name: self.name@, body: stmts_view(self.body@) }
    }
}

/// A program: one function.
#[derive(Debug, PartialEq, Eq)]
pub struct Program {
    pub function: Function,
}

/// The mathematical value of a [`Program`].
pub struct ProgramView {
    pub function: FunctionView,
}

impl View for Program {
    type V = ProgramView;

    open spec fn view(&self) -> ProgramView {
        ProgramView { function: self.function@ }
    }
}


// ---------------------------------------------------------------------
// What the tree of a list of tokens is
// ---------------------------------------------------------------------

/// The name at index `pos`, or the error if there is none.
pub open spec fn name_at(tokens: Seq<TokenView>, pos: int) -> Result<Seq<char>, CompileErrorView> {
    match peek_at(tokens, pos) {
        Some(TokenView::Identifier { val }) => Ok(val),
        Some(_) => Err(CompileErrorView::UnexpectedToken(pos as usize)),
        None => Err(CompileErrorView::UnexpectedEnd),
    }
}

/// The type named at index `pos`, or the error if there is none.
pub open spec fn type_at(tokens: Seq<TokenView>, pos: int) -> Result<VarType, CompileErrorView> {
    match peek_at(tokens, pos) {
        Some(TokenView::Type(t)) => Ok(t),
        Some(_) => Err(CompileErrorView::UnexpectedToken(pos as usize)),
        None => Err(CompileErrorView::UnexpectedEnd),
    }
}

/// The expression that starts at index `pos`, which the token `t` must
/// follow; the result ends behind that token.
pub open spec fn parse_expr_then(tokens: Seq<TokenView>, pos: int, t: TokenView) -> Result<
    Parsed<ExprView>,
    CompileErrorView,
> {
    match parse_expr(tokens, pos, lowest()) {
        Err(e) => Err(e),
        Ok(expr) => match expect(tokens, expr.next, t) {
            Err(e) => Err(e),
            Ok(p) => Ok(Parsed { value: expr.value, next: p }),
        },
    }
}

/// The declaration whose type is at index `pos`: the type, a name, an
/// initial value behind `=` if there is one, and a semicolon.
pub open spec fn parse_declaration(tokens: Seq<TokenView>, pos: int) -> Result<
    Parsed<StatementView>,
    CompileErrorView,
> {
    match type_at(tokens, pos) {
        Err(e) => Err(e),
        Ok(t) => match name_at(tokens, pos + 1) {
            Err(e) => Err(e),
            Ok(n) => if peek_at(tokens, pos + 2) == Some(TokenView::AssignmentEquals) {
                match parse_expr_then(tokens, pos + 3, TokenView::Semicolon) {
                    Err(e) => Err(e),
                    Ok(init) => Ok(
                        Parsed {
                            value: StatementView::Declare(n, Some(init.value), t),
                            next: init.next,
                        },
                    ),
                }
            } else {
                match expect(tokens, pos + 2, TokenView::Semicolon) {
                    Err(e) => Err(e),
                    Ok(p) => Ok(Parsed { value: StatementView::Declare(n, None, t), next: p }),
                }
            },
        },
    }
}

/// A statement made of the keyword at `pos` and a semicolon.
pub open spec fn parse_keyword(tokens: Seq<TokenView>, pos: int, s: StatementView) -> Result<
    Parsed<StatementView>,
    CompileErrorView,
> {
    match expect(tokens, pos + 1, TokenView::Semicolon) {
        Err(e) => Err(e),
        Ok(p) => Ok(Parsed { value: s, next: p }),
    }
}

/// The statement that starts at index `pos`.
pub open spec fn parse_statement(tokens: Seq<TokenView>, pos: int) -> Result<
    Parsed<StatementView>,
    CompileErrorView,
>
    decreases remaining(tokens, pos), 1nat,
{
    match peek_at(tokens, pos) {
        Some(TokenView::Continue) => parse_keyword(tokens, pos, StatementView::Continue),
        Some(TokenView::Break) => parse_keyword(tokens, pos, StatementView::Break),
        Some(TokenView::Return) => match parse_expr_then(tokens, pos + 1, TokenView::Semicolon) {
            Err(e) => Err(e),
            Ok(r) => Ok(Parsed { value: StatementView::Return(r.value), next: r.next }),
        },
        Some(TokenView::Type(_)) => parse_declaration(tokens, pos),
        Some(TokenView::OpenBrace) => match parse_block(tokens, pos) {
            Err(e) => Err(e),
            Ok(b) => Ok(Parsed { value: StatementView::CompoundStmt(b.value), next: b.next }),
        },
        Some(TokenView::If) => parse_if(tokens, pos),
        Some(TokenView::While) => match expect(tokens, pos + 1, TokenView::OpenParen) {
            Err(e) => Err(e),
            Ok(p) => match parse_expr_then(tokens, p, TokenView::CloseParen) {
                Err(e) => Err(e),
                Ok(cond) => {
                    proof {
                        lemma_parse_expr_progress(tokens, p, lowest());
                    }
                    match parse_statement(tokens, cond.next) {
                        Err(e) => Err(e),
                        Ok(body) => Ok(
                            Parsed {
                                value: StatementView::While(cond.value, Box::new(body.value)),
                                next: body.next,
                            },
                        ),
                    }
                },
            },
        },
        Some(TokenView::Semicolon) => Ok(Parsed { value: StatementView::Empty, next: pos + 1 }),
        Some(TokenView::For) => parse_for(tokens, pos),
        _ => match parse_expr_then(tokens, pos, TokenView::Semicolon) {
            Err(e) => Err(e),
            Ok(r) => Ok(Parsed { value: StatementView::Expr(r.value), next: r.next }),
        },
    }
}

/// The `if` statement whose keyword is at index `pos`: a condition in
/// parentheses, a statement, and behind `else` another if there is one.
pub open spec fn parse_if(tokens: Seq<TokenView>, pos: int) -> Result<
    Parsed<StatementView>,
    CompileErrorView,
>
    decreases remaining(tokens, pos), 0nat,
{
    match expect(tokens, pos + 1, TokenView::OpenParen) {
        Err(e) => Err(e),
        Ok(p) => match parse_expr_then(tokens, p, TokenView::CloseParen) {
            Err(e) => Err(e),
            Ok(cond) => {
                proof {
                    lemma_parse_expr_progress(tokens, p, lowest());
                }
                match progress(tokens, cond.next, parse_statement(tokens, cond.next)) {
                    Err(e) => Err(e),
                    Ok(taken) => if peek_at(tokens, taken.next) == Some(TokenView::Else) {
                        match parse_statement(tokens, taken.next + 1) {
                            Err(e) => Err(e),
                            Ok(other) => Ok(
                                Parsed {
                                    value: StatementView::If(
                                        cond.value,
                                        Box::new(taken.value),
                                        Some(Box::new(other.value)),
                                    ),
                                    next: other.next,
                                },
                            ),
                        }
                    } else {
                        Ok(
                            Parsed {
                                value: StatementView::If(
                                    cond.value,
                                    Box::new(taken.value),
                                    None,
                                ),
                                next: taken.next,
                            },
                        )
                    },
                }
            },
        },
    }
}

/// The `for` statement whose keyword is at index `pos`: its header and
/// its body.
pub open spec fn parse_for(tokens: Seq<TokenView>, pos: int) -> Result<
    Parsed<StatementView>,
    CompileErrorView,
>
    decreases remaining(tokens, pos), 0nat,
{
    match parse_for_header(tokens, pos) {
        Err(e) => Err(e),
        Ok(h) => {
            proof {
                lemma_for_header_progress(tokens, pos);
            }
            match parse_statement(tokens, h.next) {
                Err(e) => Err(e),
                Ok(body) => Ok(
                    Parsed {
                        value: StatementView::For(
                            Box::new(h.value.0),
                            h.value.1,
                            h.value.2,
                            Box::new(body.value),
                        ),
                        next: body.next,
                    },
                ),
            }
        },
    }
}

/// The statements between the brace at index `pos` and the brace that
/// closes it.
pub open spec fn parse_block(tokens: Seq<TokenView>, pos: int) -> Result<
    Parsed<Seq<StatementView>>,
    CompileErrorView,
>
    decreases remaining(tokens, pos), 0nat,
{
    match expect(tokens, pos, TokenView::OpenBrace) {
        Err(e) => Err(e),
        Ok(p) => parse_items(tokens, p, Seq::empty()),
    }
}

/// The statements from index `pos` up to the closing brace, behind the
/// statements `done`.
pub open spec fn parse_items(tokens: Seq<TokenView>, pos: int, done: Seq<StatementView>) -> Result<
    Parsed<Seq<StatementView>>,
    CompileErrorView,
>
    decreases remaining(tokens, pos), 2nat,
{
    match peek_at(tokens, pos) {
        None => Err(CompileErrorView::UnexpectedEnd),
        Some(TokenView::CloseBrace) => Ok(Parsed { value: done, next: pos + 1 }),
        Some(_) => match progress(tokens, pos, parse_statement(tokens, pos)) {
            Err(e) => Err(e),
            Ok(s) => parse_items(tokens, s.next, done.push(s.value)),
        },
    }
}

/// The function that starts at index `pos`: the type it returns, its
/// name, an empty pair of parentheses, and its body in braces.
pub open spec fn parse_function(tokens: Seq<TokenView>, pos: int) -> Result<
    Parsed<FunctionView>,
    CompileErrorView,
> {
    match type_at(tokens, pos) {
        Err(e) => Err(e),
        Ok(_) => match name_at(tokens, pos + 1) {
            Err(e) => Err(e),
            Ok(name) => match expect(tokens, pos + 2, TokenView::OpenParen) {
                Err(e) => Err(e),
                Ok(pos1) => match expect(tokens, pos1, TokenView::CloseParen) {
                    Err(e) => Err(e),
                    Ok(pos2) => match parse_block(tokens, pos2) {
                        Err(e) => Err(e),
                        Ok(body) => Ok(
                            Parsed {
                                value: FunctionView { name, body: body.value },
                                next: body.next,
                            },
                        ),
                    },
                },
            },
        },
    }
}

/// The program that the tokens write: one function, and nothing behind
/// it.
pub open spec fn parse_program(tokens: Seq<TokenView>) -> Result<ProgramView, CompileErrorView> {
    match parse_function(tokens, 0) {
        Err(e) => Err(e),
        Ok(f) => if f.next == tokens.len() {
            Ok(ProgramView { function: f.value })
        } else {
            Err(CompileErrorView::UnexpectedToken(f.next as usize))
        },
    }
}


/// A statement takes at least one token and no more than there are, and
/// so does a block.
pub proof fn lemma_parse_statement_progress(tokens: Seq<TokenView>, pos: int)
    ensures
        parse_statement(tokens, pos) matches Ok(p) ==> pos < p.next <= tokens.len(),
    decreases remaining(tokens, pos), 1nat,
{
    lemma_parse_expr_progress(tokens, pos, lowest());
    lemma_parse_expr_progress(tokens, pos + 1, lowest());
    lemma_parse_expr_progress(tokens, pos + 2, lowest());
    lemma_parse_expr_progress(tokens, pos + 3, lowest());
    match peek_at(tokens, pos) {
        Some(TokenView::OpenBrace) => {
            lemma_parse_items_progress(tokens, pos + 1, Seq::empty());
            assert(parse_block(tokens, pos) == parse_items(tokens, pos + 1, Seq::empty()));
        },
        Some(TokenView::If) => {
            assert(parse_statement(tokens, pos) == parse_if(tokens, pos));
            if let Ok(cond) = parse_expr_then(tokens, pos + 2, TokenView::CloseParen) {
                if let Ok(taken) = progress(
                    tokens,
                    cond.next,
                    parse_statement(tokens, cond.next),
                ) {
                    if peek_at(tokens, taken.next) == Some(TokenView::Else) {
                        lemma_parse_statement_progress(tokens, taken.next + 1);
                    }
                }
            }
        },
        Some(TokenView::While) => {
            if let Ok(cond) = parse_expr_then(tokens, pos + 2, TokenView::CloseParen) {
                lemma_parse_statement_progress(tokens, cond.next);
            }
        },
        Some(TokenView::For) => {
            assert(parse_statement(tokens, pos) == parse_for(tokens, pos));
            lemma_for_header_progress(tokens, pos);
            if let Ok(h) = parse_for_header(tokens, pos) {
                lemma_parse_statement_progress(tokens, h.next);
            }
        },
        _ => {},
    }
}

/// The statements of a block end behind their start, and within the
/// tokens.
pub proof fn lemma_parse_items_progress(
    tokens: Seq<TokenView>,
    pos: int,
    done: Seq<StatementView>,
)
    ensures
        parse_items(tokens, pos, done) matches Ok(p) ==> pos < p.next <= tokens.len(),
    decreases remaining(tokens, pos), 2nat,
{
    match peek_at(tokens, pos) {
        None => {},
        Some(TokenView::CloseBrace) => {},
        Some(_) => {
            if let Ok(s) = progress(tokens, pos, parse_statement(tokens, pos)) {
                lemma_parse_items_progress(tokens, s.next, done.push(s.value));
            }
        },
    }
}

// ---------------------------------------------------------------------
// The parser
// ---------------------------------------------------------------------

/// What a parsing function returns, and where it leaves the cursor, are
/// as the model says.
pub open spec fn parsed_stmt_as(
    res: Result<Statement, CompileError>,
    index_after: int,
    model: Result<Parsed<StatementView>, CompileErrorView>,
) -> bool {
    match model {
        Ok(p) => res matches Ok(s) && s@ == p.value && index_after == p.next,
        Err(err) => res matches Err(x) && x@ == err,
    }
}

/// Reads the name at the cursor.
pub fn expect_name(tokens: &mut TokenCursor) -> (res: Result<String, CompileError>)
    requires
        old(tokens).wf(),
    ensures
        final(tokens).wf(),
        final(tokens)@.contents == old(tokens)@.contents,
        match name_at(old(tokens)@.contents, old(tokens)@.index) {
            Ok(n) => res matches Ok(x) && x@ == n && final(tokens)@.index == old(tokens)@.index
                + 1,
            Err(e) => res matches Err(x) && x@ == e,
        },
{
    match tokens.peek() {
        Some(Token::Identifier { val }) => {
            let val = val.clone();
            tokens.next();
            Ok(val)
        },
        Some(_) => Err(CompileError::UnexpectedToken(tokens.position())),
        None => Err(CompileError::UnexpectedEnd),
    }
}

/// Reads the name of a type at the cursor.
pub fn expect_type(tokens: &mut TokenCursor) -> (res: Result<VarType, CompileError>)
    requires
        old(tokens).wf(),
    ensures
        final(tokens).wf(),
        final(tokens)@.contents == old(tokens)@.contents,
        match type_at(old(tokens)@.contents, old(tokens)@.index) {
            Ok(t) => res matches Ok(x) && x == t && final(tokens)@.index == old(tokens)@.index + 1,
            Err(e) => res matches Err(x) && x@ == e,
        },
{
    match tokens.peek() {
        Some(Token::Type(t)) => {
            let t = t.duplicate();
            tokens.next();
            Ok(t)
        },
        Some(_) => Err(CompileError::UnexpectedToken(tokens.position())),
        None => Err(CompileError::UnexpectedEnd),
    }
}

/// Parses the expression at the cursor and the token that must follow it.
pub fn generate_expr_then(tokens: &mut TokenCursor, expected: &Token) -> (res: Result<
    Expr,
    CompileError,
>)
    requires
        old(tokens).wf(),
    ensures
        final(tokens).wf(),
        final(tokens)@.contents == old(tokens)@.contents,
        match parse_expr_then(old(tokens)@.contents, old(tokens)@.index, expected@) {
            Ok(p) => res matches Ok(e) && e@ == p.value && final(tokens)@.index == p.next,
            Err(err) => res matches Err(x) && x@ == err,
        },
        res is Ok ==> old(tokens)@.index + 1 < final(tokens)@.index,
{
    let expr = match generate_expr_ast(tokens, BinOpPrecedenceLevel::lowest_level()) {
        Ok(e) => e,
        Err(e) => {
            return Err(e);
        },
    };
    match expect_token(tokens, expected) {
        Ok(()) => Ok(expr),
        Err(e) => Err(e),
    }
}

fn generate_declaration_ast(tokens: &mut TokenCursor) -> (res: Result<Statement, CompileError>)
    requires
        old(tokens).wf(),
    ensures
        final(tokens).wf(),
        final(tokens)@.contents == old(tokens)@.contents,
        parsed_stmt_as(
            res,
            final(tokens)@.index,
            parse_declaration(old(tokens)@.contents, old(tokens)@.index),
        ),
        res is Ok ==> old(tokens)@.index < final(tokens)@.index,
{
    let t = match expect_type(tokens) {
        Ok(t) => t,
        Err(e) => {
            return Err(e);
        },
    };
    let decl_identifier = match expect_name(tokens) {
        Ok(n) => n,
        Err(e) => {
            return Err(e);
        },
    };
    let has_init = match tokens.peek() {
        Some(Token::AssignmentEquals) => true,
        _ => false,
    };
    if has_init {
        tokens.next();
        match generate_expr_then(tokens, &Token::Semicolon) {
            Ok(e) => Ok(Statement::Declare(decl_identifier, Some(e), t)),
            Err(e) => Err(e),
        }
    } else {
        match expect_token(tokens, &Token::Semicolon) {
            Ok(()) => Ok(Statement::Declare(decl_identifier, None, t)),
            Err(e) => Err(e),
        }
    }
}

fn generate_keyword_ast(tokens: &mut TokenCursor, s: Statement) -> (res: Result<
    Statement,
    CompileError,
>)
    requires
        old(tokens).wf(),
        old(tokens)@.index < old(tokens)@.contents.len(),
    ensures
        final(tokens).wf(),
        final(tokens)@.contents == old(tokens)@.contents,
        parsed_stmt_as(
            res,
            final(tokens)@.index,
            parse_keyword(old(tokens)@.contents, old(tokens)@.index, s@),
        ),
        res is Ok ==> old(tokens)@.index < final(tokens)@.index,
{
    tokens.next();
    match expect_token(tokens, &Token::Semicolon) {
        Ok(()) => Ok(s),
        Err(e) => Err(e),
    }
}

fn generate_if_ast(tokens: &mut TokenCursor) -> (res: Result<Statement, CompileError>)
    requires
        old(tokens).wf(),
        old(tokens)@.index < old(tokens)@.contents.len(),
    ensures
        final(tokens).wf(),
        final(tokens)@.contents == old(tokens)@.contents,
        parsed_stmt_as(
            res,
            final(tokens)@.index,
            parse_if(old(tokens)@.contents, old(tokens)@.index),
        ),
        res is Ok ==> old(tokens)@.index < final(tokens)@.index,
    decreases remaining(old(tokens)@.contents, old(tokens)@.index), 0nat,
{
    // the keyword
    tokens.next();
    match expect_token(tokens, &Token::OpenParen) {
        Ok(()) => {},
        Err(e) => {
            return Err(e);
        },
    }
    let conditional_expr = match generate_expr_then(tokens, &Token::CloseParen) {
        Ok(e) => e,
        Err(e) => {
            return Err(e);
        },
    };
    let taken_branch_stmt = match generate_statement_ast(tokens) {
        Ok(s) => s,
        Err(e) => {
            return Err(e);
        },
    };
    let has_else = match tokens.peek() {
        Some(Token::Else) => true,
        _ => false,
    };
    if has_else {
        tokens.next();
        match generate_statement_ast(tokens) {
            Ok(other) => Ok(
                Statement::If(conditional_expr, Box::new(taken_branch_stmt), Some(Box::new(other))),
            ),
            Err(e) => Err(e),
        }
    } else {
        Ok(Statement::If(conditional_expr, Box::new(taken_branch_stmt), None))
    }
}

/// Parses the statement at the cursor and moves the cursor behind it.
pub fn generate_statement_ast(tokens: &mut TokenCursor) -> (res: Result<Statement, CompileError>)
    requires
        old(tokens).wf(),
    ensures
        final(tokens).wf(),
        final(tokens)@.contents == old(tokens)@.contents,
        parsed_stmt_as(
            res,
            final(tokens)@.index,
            parse_statement(old(tokens)@.contents, old(tokens)@.index),
        ),
        res is Ok ==> old(tokens)@.index < final(tokens)@.index,
    decreases remaining(old(tokens)@.contents, old(tokens)@.index), 1nat,
{
    let kind: u8 = match tokens.peek() {
        Some(Token::Continue) => 1,
        Some(Token::Break) => 2,
        Some(Token::Return) => 3,
        Some(Token::Type(_)) => 4,
        Some(Token::OpenBrace) => 5,
        Some(Token::If) => 6,
        Some(Token::While) => 7,
        Some(Token::Semicolon) => 8,
        Some(Token::For) => 9,
        _ => 0,
    };
    if kind == 1 {
        generate_keyword_ast(tokens, Statement::Continue)
    } else if kind == 2 {
        generate_keyword_ast(tokens, Statement::Break)
    } else if kind == 3 {
        tokens.next();
        match generate_expr_then(tokens, &Token::Semicolon) {
            Ok(e) => Ok(Statement::Return(e)),
            Err(e) => Err(e),
        }
    } else if kind == 4 {
        generate_declaration_ast(tokens)
    } else if kind == 5 {
        match generate_compound_stmt_ast(tokens) {
            Ok(stmts) => {
                proof {
                    lemma_stmt_list_view(stmts);
                }
                Ok(Statement::CompoundStmt(stmts))
            },
            Err(e) => Err(e),
        }
    } else if kind == 6 {
        generate_if_ast(tokens)
    } else if kind == 7 {
        tokens.next();
        match expect_token(tokens, &Token::OpenParen) {
            Ok(()) => {},
            Err(e) => {
                return Err(e);
            },
        }
        let conditional = match generate_expr_then(tokens, &Token::CloseParen) {
            Ok(e) => e,
            Err(e) => {
                return Err(e);
            },
        };
        match generate_statement_ast(tokens) {
            Ok(body) => Ok(Statement::While(conditional, Box::new(body))),
            Err(e) => Err(e),
        }
    } else if kind == 8 {
        tokens.next();
        Ok(Statement::Empty)
    } else if kind == 9 {
        generate_for_loop_ast(tokens)
    } else {
        match generate_expr_then(tokens, &Token::Semicolon) {
            Ok(e) => Ok(Statement::Expr(e)),
            Err(e) => Err(e),
        }
    }
}

/// Parses the statements between the brace at the cursor and the brace
/// that closes it, and moves the cursor behind that brace.
pub fn generate_compound_stmt_ast(tokens: &mut TokenCursor) -> (res: Result<
    Vec<Statement>,
    CompileError,
>)
    requires
        old(tokens).wf(),
    ensures
        final(tokens).wf(),
        final(tokens)@.contents == old(tokens)@.contents,
        match parse_block(old(tokens)@.contents, old(tokens)@.index) {
            Ok(p) => res matches Ok(stmts) && stmts_view(stmts@) == p.value && final(tokens)@.index == p.next,
            Err(e) => res matches Err(x) && x@ == e,
        },
        res is Ok ==> old(tokens)@.index < final(tokens)@.index,
    decreases remaining(old(tokens)@.contents, old(tokens)@.index), 0nat,
{
    let ghost toks = tokens@.contents;
    let ghost start = tokens@.index;
    match expect_token(tokens, &Token::OpenBrace) {
        Ok(()) => {},
        Err(e) => {
            return Err(e);
        },
    }
    let mut statements: Vec<Statement> = Vec::new();
    assert(stmts_view(statements@) =~= Seq::<StatementView>::empty());
    loop
        invariant_except_break
            parse_block(toks, start) == parse_items(toks, tokens@.index, stmts_view(statements@)),
        invariant
            tokens.wf(),
            tokens@.contents == toks,
            toks == old(tokens)@.contents,
            start == old(tokens)@.index,
            start < tokens@.index,
        ensures
            parse_block(toks, start) == Ok::<Parsed<Seq<StatementView>>, CompileErrorView>(
                Parsed { value: stmts_view(statements@), next: tokens@.index },
            ),
        decreases remaining(toks, tokens@.index),
    {
        let closing = match tokens.peek() {
            None => {
                return Err(CompileError::UnexpectedEnd);
            },
            Some(Token::CloseBrace) => true,
            Some(_) => false,
        };
        if closing {
            tokens.next();
            break;
        }
        let ghost done = stmts_view(statements@);
        let statement = match generate_statement_ast(tokens) {
            Ok(s) => s,
            Err(e) => {
                return Err(e);
            },
        };
        statements.push(statement);
        assert(stmts_view(statements@) =~= done.push(statement@));
    }
    Ok(statements)
}

/// Parses the function at the cursor and moves the cursor behind it.
pub fn generate_function_ast(tokens: &mut TokenCursor) -> (res: Result<Function, CompileError>)
    requires
        old(tokens).wf(),
    ensures
        final(tokens).wf(),
        final(tokens)@.contents == old(tokens)@.contents,
        match parse_function(old(tokens)@.contents, old(tokens)@.index) {
            Ok(p) => res matches Ok(f) && f@ == p.value && final(tokens)@.index == p.next,
            Err(e) => res matches Err(x) && x@ == e,
        },
{
    match expect_type(tokens) {
        Ok(_) => {},
        Err(e) => {
            return Err(e);
        },
    }
    let function_name = match expect_name(tokens) {
        Ok(n) => n,
        Err(e) => {
            return Err(e);
        },
    };
    match expect_token(tokens, &Token::OpenParen) {
        Ok(()) => {},
        Err(e) => {
            return Err(e);
        },
    }
    match expect_token(tokens, &Token::CloseParen) {
        Ok(()) => {},
        Err(e) => {
            return Err(e);
        },
    }
    match generate_compound_stmt_ast(tokens) {
        Ok(body) => Ok(Function { name: function_name, body }),
        Err(e) => Err(e),
    }
}

/// The mathematical value of what the parser returns.
pub open spec fn program_view(res: Result<Program, CompileError>) -> Result<
    ProgramView,
    CompileErrorView,
> {
    match res {
        Ok(p) => Ok(p@),
        Err(e) => Err(e@),
    }
}

/// Parses a program: one function, and nothing behind it.
pub fn generate_program_ast(tokens: Vec<Token>) -> (res: Result<Program, CompileError>)
    ensures
        program_view(res) == parse_program(tokens_view(tokens@)),
{
    let mut tokens = TokenCursor::new(tokens);
    let f = match generate_function_ast(&mut tokens) {
        Ok(f) => f,
        Err(e) => {
            return Err(e);
        },
    };
    match tokens.peek() {
        None => Ok(Program { function: f }),
        Some(_) => Err(CompileError::UnexpectedToken(tokens.position())),
    }
}

} // verus!
