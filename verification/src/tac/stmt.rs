//! Lowering of statements to three-address code.

use vstd::prelude::*;
use crate::errors::{CompileError, CompileErrorView};
use crate::parser::expr_parser::{Expr, ExprView};
use crate::parser::{
    lemma_stmt_heights_bound, lemma_stmt_list_view, opt_expr_view, stmt_height, stmt_heights,
    stmts_view, Function, FunctionView, Statement, StatementView,
};
use crate::tac::expr::{generate_expr_tac, lower_expr, ExprTac};
use crate::tac::labels::{label_text, make_label, LabelKind};
use crate::tac::{
    emit, emit_all, fresh_label, fresh_temp, tac_view, BindingView, CodeEnv, CodeEnvView,
    LoopLabelsView, TacContext, TacInstr, TacInstrView, TacVal,
};
use crate::types::{default_size, type_size, VarSize, VarType};

verus! {

/// The instructions of a statement, the variables in scope after it, and
/// the counters after lowering it.
pub struct StmtTac {
    pub code: Seq<TacInstrView>,
    pub vars: Seq<BindingView>,
    pub ctx: TacContext,
}

/// Instructions and the counters after making them.
pub struct CodeTac {
    pub code: Seq<TacInstrView>,
    pub ctx: TacContext,
}

/// The environment inside a loop with the given labels.
pub open spec fn inside_loop(
    vars: Seq<BindingView>,
    env: CodeEnvView,
    continue_label: Seq<char>,
    break_label: Seq<char>,
) -> CodeEnvView {
    CodeEnvView { vars, loops: env.loops.push(LoopLabelsView { continue_label, break_label }) }
}

/// The code of an expression whose value is not used, or no code if there
/// is no expression.
pub open spec fn lower_opt_expr(e: Option<ExprView>, vars: Seq<BindingView>, ctx: TacContext) -> Result<
    CodeTac,
    CompileErrorView,
> {
    match e {
        None => Ok(CodeTac { code: Seq::empty(), ctx }),
        Some(x) => match lower_expr(x, vars, None, None, ctx) {
            Err(err) => Err(err),
            Ok(r) => Ok(CodeTac { code: r.code, ctx: r.ctx }),
        },
    }
}

/// The code that leaves a loop for `exit` when the condition is zero, or
/// no code if there is no condition.
pub open spec fn lower_opt_cond(
    cond: Option<ExprView>,
    vars: Seq<BindingView>,
    exit: Seq<char>,
    ctx: TacContext,
) -> Result<CodeTac, CompileErrorView> {
    match cond {
        None => Ok(CodeTac { code: Seq::empty(), ctx }),
        Some(c) => match lower_expr(c, vars, None, None, ctx) {
            Err(err) => Err(err),
            Ok(r) => Ok(
                CodeTac { code: r.code.push(TacInstrView::JmpZero(exit, r.val)), ctx: r.ctx },
            ),
        },
    }
}

/// The code of `if (c) t`, given the codes of its parts.
pub open spec fn if_code(k: u64, rc: ExprTac, then_code: Seq<TacInstrView>) -> Seq<TacInstrView> {
    rc.code.push(TacInstrView::JmpZero(label_text(LabelKind::IfEnd, k), rc.val)) + then_code.push(
        TacInstrView::Label(label_text(LabelKind::IfEnd, k)),
    )
}

/// The code of `if (c) t else e`, given the codes of its parts.
pub open spec fn if_else_code(
    k: u64,
    rc: ExprTac,
    then_code: Seq<TacInstrView>,
    else_code: Seq<TacInstrView>,
) -> Seq<TacInstrView> {
    rc.code.push(TacInstrView::JmpZero(label_text(LabelKind::IfElse, k), rc.val)) + then_code
        + seq![
        TacInstrView::Jmp(label_text(LabelKind::IfEnd, k)),
        TacInstrView::Label(label_text(LabelKind::IfElse, k)),
    ] + else_code.push(TacInstrView::Label(label_text(LabelKind::IfEnd, k)))
}

/// The code of `while (c) body`, given the codes of its parts.
pub open spec fn while_code(k: u64, rc: ExprTac, body_code: Seq<TacInstrView>) -> Seq<
    TacInstrView,
> {
    seq![TacInstrView::Label(label_text(LabelKind::WhileStart, k))] + rc.code.push(
        TacInstrView::JmpZero(label_text(LabelKind::WhileEnd, k), rc.val),
    ) + body_code + seq![
        TacInstrView::Jmp(label_text(LabelKind::WhileStart, k)),
        TacInstrView::Label(label_text(LabelKind::WhileEnd, k)),
    ]
}

/// The code of `for (init; cond; post) body`, given the codes of its
/// parts.
pub open spec fn for_code(
    k: u64,
    init_code: Seq<TacInstrView>,
    cond_code: Seq<TacInstrView>,
    body_code: Seq<TacInstrView>,
    post_code: Seq<TacInstrView>,
) -> Seq<TacInstrView> {
    init_code.push(TacInstrView::Label(label_text(LabelKind::ForStart, k))) + cond_code
        + body_code.push(TacInstrView::Label(label_text(LabelKind::ForPost, k))) + post_code
        + seq![
        TacInstrView::Jmp(label_text(LabelKind::ForStart, k)),
        TacInstrView::Label(label_text(LabelKind::ForEnd, k)),
    ]
}

/// The code of a declaration: the variable gets a fresh temporary of the
/// width of its type and is in scope from here on, its own initial value
/// included, which is written to that temporary.
pub open spec fn lower_declare(
    n: Seq<char>,
    init: Option<ExprView>,
    ty: VarType,
    env: CodeEnvView,
    ctx: TacContext,
) -> Result<StmtTac, CompileErrorView> {
    match fresh_temp(ctx, type_size(ty)) {
        Err(err) => Err(err),
        Ok((id, c1)) => match init {
            None => Ok(
                StmtTac {
                    code: Seq::empty(),
                    vars: env.vars.push(BindingView { name: n, id }),
                    ctx: c1,
                },
            ),
            Some(e) => match lower_expr(
                e,
                env.vars.push(BindingView { name: n, id }),
                Some(id),
                Some(id.1),
                c1,
            ) {
                Err(err) => Err(err),
                Ok(r) => Ok(
                    StmtTac {
                        code: r.code,
                        vars: env.vars.push(BindingView { name: n, id }),
                        ctx: r.ctx,
                    },
                ),
            },
        },
    }
}

/// The code of `break` (or of `continue`): a jump to the label that the
/// innermost loop gives for it.
pub open spec fn lower_jump_out(is_break: bool, env: CodeEnvView, ctx: TacContext) -> Result<
    StmtTac,
    CompileErrorView,
> {
    if env.loops.len() == 0 {
        if is_break {
            Err(CompileErrorView::BreakOutsideLoop)
        } else {
            Err(CompileErrorView::ContinueOutsideLoop)
        }
    } else {
        Ok(
            StmtTac {
                code: seq![
                    TacInstrView::Jmp(
                        if is_break {
                            env.loops.last().break_label
                        } else {
                            env.loops.last().continue_label
                        },
                    ),
                ],
                vars: env.vars,
                ctx,
            },
        )
    }
}

/// The three-address code of a statement.
///
/// `env` holds the variables in scope and the loops around the statement.
/// A declaration adds its variable to the scope; a compound statement and
/// the statements under `if`, `while` and `for` are scopes of their own,
/// which end with them.
pub open spec fn lower_stmt(s: StatementView, env: CodeEnvView, ctx: TacContext) -> Result<
    StmtTac,
    CompileErrorView,
>
    decreases stmt_height(s), 1nat,
{
    match s {
        StatementView::Empty => Ok(StmtTac { code: Seq::empty(), vars: env.vars, ctx }),
        StatementView::Expr(e) => match lower_expr(e, env.vars, None, None, ctx) {
            Err(err) => Err(err),
            Ok(r) => Ok(StmtTac { code: r.code, vars: env.vars, ctx: r.ctx }),
        },
        StatementView::Return(e) => match lower_expr(e, env.vars, None, None, ctx) {
            Err(err) => Err(err),
            Ok(r) => Ok(
                StmtTac {
                    code: r.code.push(TacInstrView::Exit(r.val)),
                    vars: env.vars,
                    ctx: r.ctx,
                },
            ),
        },
        StatementView::Declare(n, init, ty) => lower_declare(n, init, ty, env, ctx),
        StatementView::Break => lower_jump_out(true, env, ctx),
        StatementView::Continue => lower_jump_out(false, env, ctx),
        StatementView::CompoundStmt(stmts) => match lower_stmts(stmts, env, ctx) {
            Err(err) => Err(err),
            Ok(r) => Ok(StmtTac { code: r.code, vars: env.vars, ctx: r.ctx }),
        },
        StatementView::If(c, t, e) => lower_if(c, *t, e, env, ctx),
        StatementView::While(c, body) => lower_while(c, *body, env, ctx),
        StatementView::For(init, cond, post, body) => lower_for(*init, cond, post, *body, env, ctx),
    }
}

/// The code of `if (c) t` and of `if (c) t else e`: the condition, a jump
/// past `t` if it is zero, and each branch in a scope of its own.
pub open spec fn lower_if(
    c: ExprView,
    t: StatementView,
    e: Option<Box<StatementView>>,
    env: CodeEnvView,
    ctx: TacContext,
) -> Result<StmtTac, CompileErrorView>
    decreases
            1 + stmt_height(t) + match e {
                Some(x) => stmt_height(*x),
                None => 0,
            },
            0nat,
{
    match fresh_label(ctx) {
        Err(err) => Err(err),
        Ok((k, c1)) => match lower_expr(c, env.vars, None, None, c1) {
            Err(err) => Err(err),
            Ok(rc) => match lower_stmt(t, env, rc.ctx) {
                Err(err) => Err(err),
                Ok(rt) => match e {
                    None => Ok(
                        StmtTac { code: if_code(k, rc, rt.code), vars: env.vars, ctx: rt.ctx },
                    ),
                    Some(els) => match lower_stmt(*els, env, rt.ctx) {
                        Err(err) => Err(err),
                        Ok(re) => Ok(
                            StmtTac {
                                code: if_else_code(k, rc, rt.code, re.code),
                                vars: env.vars,
                                ctx: re.ctx,
                            },
                        ),
                    },
                },
            },
        },
    }
}

/// The code of `while (c) body`: the condition is computed before every
/// round, `continue` goes back to it and `break` leaves the loop.
pub open spec fn lower_while(c: ExprView, body: StatementView, env: CodeEnvView, ctx: TacContext) -> Result<
    StmtTac,
    CompileErrorView,
>
    decreases 1 + stmt_height(body), 0nat,
{
    match fresh_label(ctx) {
        Err(err) => Err(err),
        Ok((k, c1)) => match lower_expr(c, env.vars, None, None, c1) {
            Err(err) => Err(err),
            Ok(rc) => match lower_stmt(
                body,
                inside_loop(
                    env.vars,
                    env,
                    label_text(LabelKind::WhileStart, k),
                    label_text(LabelKind::WhileEnd, k),
                ),
                rc.ctx,
            ) {
                Err(err) => Err(err),
                Ok(rb) => Ok(
                    StmtTac { code: while_code(k, rc, rb.code), vars: env.vars, ctx: rb.ctx },
                ),
            },
        },
    }
}

/// The code of `for (init; cond; post) body`: what `init` declares is in
/// scope in the other three parts, `continue` goes to `post` and `break`
/// leaves the loop.
pub open spec fn lower_for(
    init: StatementView,
    cond: Option<ExprView>,
    post: Option<ExprView>,
    body: StatementView,
    env: CodeEnvView,
    ctx: TacContext,
) -> Result<StmtTac, CompileErrorView>
    decreases 1 + stmt_height(init) + stmt_height(body), 0nat,
{
    match fresh_label(ctx) {
        Err(err) => Err(err),
        Ok((k, c1)) => match lower_stmt(init, env, c1) {
            Err(err) => Err(err),
            Ok(ri) => match lower_opt_cond(cond, ri.vars, label_text(LabelKind::ForEnd, k), ri.ctx) {
                Err(err) => Err(err),
                Ok(rc) => match lower_stmt(
                    body,
                    inside_loop(
                        ri.vars,
                        env,
                        label_text(LabelKind::ForPost, k),
                        label_text(LabelKind::ForEnd, k),
                    ),
                    rc.ctx,
                ) {
                    Err(err) => Err(err),
                    Ok(rb) => match lower_opt_expr(post, ri.vars, rb.ctx) {
                        Err(err) => Err(err),
                        Ok(rp) => Ok(
                            StmtTac {
                                code: for_code(k, ri.code, rc.code, rb.code, rp.code),
                                vars: env.vars,
                                ctx: rp.ctx,
                            },
                        ),
                    },
                },
            },
        },
    }
}

/// The three-address code of a list of statements, one after the other.
/// Each statement sees the declarations of those before it.
pub open spec fn lower_stmts(stmts: Seq<StatementView>, env: CodeEnvView, ctx: TacContext) -> Result<
    StmtTac,
    CompileErrorView,
>
    decreases stmt_heights(stmts), 2nat,
{
    if stmts.len() == 0 {
        Ok(StmtTac { code: Seq::empty(), vars: env.vars, ctx })
    } else {
        match lower_stmts(stmts.drop_last(), env, ctx) {
            Err(err) => Err(err),
            Ok(front) => match lower_stmt(
                stmts.last(),
                CodeEnvView { vars: front.vars, loops: env.loops },
                front.ctx,
            ) {
                Err(err) => Err(err),
                Ok(r) => Ok(StmtTac { code: front.code + r.code, vars: r.vars, ctx: r.ctx }),
            },
        }
    }
}

/// The three-address code of a function: that of its body, lowered with
/// nothing in scope and with counters that start at zero, and then an exit
/// with status 0 for a body that ends without a `return`.
pub open spec fn lower_function(f: FunctionView) -> Result<Seq<TacInstrView>, CompileErrorView> {
    match lower_stmts(
        f.body,
        CodeEnvView { vars: Seq::empty(), loops: Seq::empty() },
        TacContext { next_temp: 0, next_label: 0 },
    ) {
        Err(err) => Err(err),
        Ok(r) => Ok(r.code.push(TacInstrView::Exit(TacVal::Lit(0, default_size())))),
    }
}


/// What a statement lowering function returns, and the environment and
/// counters it leaves, are as the model says. The loops around the
/// statement are as they were.
pub open spec fn stmt_lowered_as(
    res: Result<Vec<TacInstr>, CompileError>,
    env_before: CodeEnvView,
    env_after: CodeEnvView,
    ctx_after: TacContext,
    model: Result<StmtTac, CompileErrorView>,
) -> bool {
    match model {
        Ok(r) => res matches Ok(code) && tac_view(code@) == r.code && env_after.vars == r.vars
            && env_after.loops == env_before.loops && ctx_after == r.ctx && r.vars.len()
            >= env_before.vars.len() && r.vars.take(env_before.vars.len() as int)
            == env_before.vars,
        Err(e) => res matches Err(err) && err@ == e,
    }
}

/// Once a prefix of the list holds a statement that cannot be lowered, the
/// whole list fails with the same error.
pub proof fn lemma_lower_stmts_fails(
    stmts: Seq<StatementView>,
    env: CodeEnvView,
    ctx: TacContext,
    n: int,
)
    requires
        0 <= n <= stmts.len(),
        lower_stmts(stmts.take(n), env, ctx) is Err,
    ensures
        lower_stmts(stmts, env, ctx) == lower_stmts(stmts.take(n), env, ctx),
    decreases stmts.len() - n,
{
    if n < stmts.len() {
        assert(stmts.take(n + 1).drop_last() =~= stmts.take(n));
        lemma_lower_stmts_fails(stmts, env, ctx, n + 1);
    } else {
        assert(stmts.take(n) =~= stmts);
    }
}

fn new_code() -> (code: Vec<TacInstr>)
    ensures
        tac_view(code@) == Seq::<TacInstrView>::empty(),
{
    let code: Vec<TacInstr> = Vec::new();
    assert(tac_view(code@) =~= Seq::<TacInstrView>::empty());
    code
}

fn pair_code(first: TacInstr, second: TacInstr) -> (code: Vec<TacInstr>)
    ensures
        tac_view(code@) == seq![first@, second@],
{
    let mut code: Vec<TacInstr> = Vec::new();
    emit(&mut code, first);
    emit(&mut code, second);
    assert(tac_view(code@) =~= seq![first@, second@]);
    code
}

fn gen_opt_expr_tac(e: &Option<Expr>, code_env: &CodeEnv, ctx: &mut TacContext) -> (res: Result<
    Vec<TacInstr>,
    CompileError,
>)
    ensures
        match lower_opt_expr(opt_expr_view(*e), code_env@.vars, *old(ctx)) {
            Ok(r) => res matches Ok(code) && tac_view(code@) == r.code && *final(ctx) == r.ctx,
            Err(err) => res matches Err(x) && x@ == err,
        },
{
    match e {
        None => Ok(new_code()),
        Some(x) => match generate_expr_tac(x, code_env, None, None, ctx) {
            Ok((code, _)) => Ok(code),
            Err(err) => Err(err),
        },
    }
}

fn gen_opt_cond_tac(cond: &Option<Expr>, code_env: &CodeEnv, exit: String, ctx: &mut TacContext) -> (res:
    Result<Vec<TacInstr>, CompileError>)
    ensures
        match lower_opt_cond(opt_expr_view(*cond), code_env@.vars, exit@, *old(ctx)) {
            Ok(r) => res matches Ok(code) && tac_view(code@) == r.code && *final(ctx) == r.ctx,
            Err(err) => res matches Err(x) && x@ == err,
        },
{
    match cond {
        None => Ok(new_code()),
        Some(c) => match generate_expr_tac(c, code_env, None, None, ctx) {
            Ok((mut code, val)) => {
                emit(&mut code, TacInstr::JmpZero(exit, val));
                Ok(code)
            },
            Err(err) => Err(err),
        },
    }
}

fn gen_declare_tac(
    name: &String,
    init: &Option<Expr>,
    ty: &VarType,
    code_env: &mut CodeEnv,
    ctx: &mut TacContext,
) -> (res: Result<Vec<TacInstr>, CompileError>)
    ensures
        stmt_lowered_as(
            res,
            old(code_env)@,
            final(code_env)@,
            *final(ctx),
            lower_declare(name@, opt_expr_view(*init), *ty, old(code_env)@, *old(ctx)),
        ),
{
    let id = match ctx.get_new_temp_name(ty.to_size()) {
        Ok(id) => id,
        Err(e) => {
            return Err(e);
        },
    };
    code_env.bind(name.clone(), id);
    assert(code_env@.vars.take(old(code_env)@.vars.len() as int) =~= old(code_env)@.vars);
    match init {
        None => Ok(new_code()),
        Some(e) => match generate_expr_tac(e, code_env, Some(id), Some(id.1), ctx) {
            Ok((code, _)) => Ok(code),
            Err(err) => Err(err),
        },
    }
}

fn gen_jump_out_tac(is_break: bool, code_env: &CodeEnv) -> (res: Result<Vec<TacInstr>, CompileError>)
    ensures
        forall|ctx: TacContext|
            stmt_lowered_as(
                res,
                code_env@,
                code_env@,
                ctx,
                #[trigger] lower_jump_out(is_break, code_env@, ctx),
            ),
{
    let n = code_env.loops.len();
    assert(code_env@.vars.take(code_env@.vars.len() as int) =~= code_env@.vars);
    if n == 0 {
        if is_break {
            return Err(CompileError::BreakOutsideLoop);
        } else {
            return Err(CompileError::ContinueOutsideLoop);
        }
    }
    let mut code: Vec<TacInstr> = Vec::new();
    assert(code_env@.loops.last() == code_env.loops@[n - 1]@);
    if is_break {
        emit(&mut code, TacInstr::Jmp(code_env.loops[n - 1].break_label.clone()));
        assert(tac_view(code@) =~= seq![TacInstrView::Jmp(code_env@.loops.last().break_label)]);
    } else {
        emit(&mut code, TacInstr::Jmp(code_env.loops[n - 1].continue_label.clone()));
        assert(tac_view(code@) =~= seq![
            TacInstrView::Jmp(code_env@.loops.last().continue_label),
        ]);
    }
    Ok(code)
}

#[verifier::rlimit(60)]
fn gen_if_tac(
    cond: &Expr,
    taken: &Statement,
    not_taken: &Option<Box<Statement>>,
    code_env: &mut CodeEnv,
    ctx: &mut TacContext,
) -> (res: Result<Vec<TacInstr>, CompileError>)
    ensures
        stmt_lowered_as(
            res,
            old(code_env)@,
            final(code_env)@,
            *final(ctx),
            lower_if(
                cond@,
                taken@,
                match *not_taken {
                    Some(x) => Some(Box::new(x@)),
                    None => None,
                },
                old(code_env)@,
                *old(ctx),
            ),
        ),
    decreases
            1 + stmt_height(taken@) + match *not_taken {
                Some(x) => stmt_height(x@),
                None => 0,
            },
            1nat,
{
    let ghost env = code_env@;
    let mark = code_env.scope_mark();
    let k = match ctx.get_new_label_number() {
        Ok(k) => k,
        Err(e) => {
            return Err(e);
        },
    };
    let (mut result, cond_val) = match generate_expr_tac(cond, code_env, None, None, ctx) {
        Ok(pair) => pair,
        Err(e) => {
            return Err(e);
        },
    };
    let ghost rc = ExprTac { code: tac_view(result@), val: cond_val, ctx: *ctx };
    let mut then_code = match generate_statement_tac(taken, code_env, ctx) {
        Ok(code) => code,
        Err(e) => {
            return Err(e);
        },
    };
    let ghost then_view = tac_view(then_code@);
    code_env.restore_scope(mark);
    assert(code_env@ == env);
    assert(env.vars.take(env.vars.len() as int) =~= env.vars);
    match not_taken {
        None => {
            emit(&mut result, TacInstr::JmpZero(make_label(LabelKind::IfEnd, k), cond_val));
            emit(&mut then_code, TacInstr::Label(make_label(LabelKind::IfEnd, k)));
            emit_all(&mut result, then_code);
            assert(tac_view(result@) == if_code(k, rc, then_view));
            Ok(result)
        },
        Some(els) => {
            let mut else_code = match generate_statement_tac(els, code_env, ctx) {
                Ok(code) => code,
                Err(e) => {
                    return Err(e);
                },
            };
            let ghost else_view = tac_view(else_code@);
            code_env.restore_scope(mark);
            assert(code_env@ == env);
            emit(&mut result, TacInstr::JmpZero(make_label(LabelKind::IfElse, k), cond_val));
            emit_all(&mut result, then_code);
            let middle = pair_code(
                TacInstr::Jmp(make_label(LabelKind::IfEnd, k)),
                TacInstr::Label(make_label(LabelKind::IfElse, k)),
            );
            emit_all(&mut result, middle);
            emit(&mut else_code, TacInstr::Label(make_label(LabelKind::IfEnd, k)));
            emit_all(&mut result, else_code);
            assert(tac_view(result@) == if_else_code(k, rc, then_view, else_view));
            Ok(result)
        },
    }
}

fn gen_while_tac(cond: &Expr, body: &Statement, code_env: &mut CodeEnv, ctx: &mut TacContext) -> (res:
    Result<Vec<TacInstr>, CompileError>)
    ensures
        stmt_lowered_as(
            res,
            old(code_env)@,
            final(code_env)@,
            *final(ctx),
            lower_while(cond@, body@, old(code_env)@, *old(ctx)),
        ),
    decreases 1 + stmt_height(body@), 1nat,
{
    let ghost env = code_env@;
    let mark = code_env.scope_mark();
    let k = match ctx.get_new_label_number() {
        Ok(k) => k,
        Err(e) => {
            return Err(e);
        },
    };
    let (mut cond_code, cond_val) = match generate_expr_tac(cond, code_env, None, None, ctx) {
        Ok(pair) => pair,
        Err(e) => {
            return Err(e);
        },
    };
    let ghost rc = ExprTac { code: tac_view(cond_code@), val: cond_val, ctx: *ctx };
    code_env.enter_loop(make_label(LabelKind::WhileStart, k), make_label(LabelKind::WhileEnd, k));
    assert(code_env@ == inside_loop(
        env.vars,
        env,
        label_text(LabelKind::WhileStart, k),
        label_text(LabelKind::WhileEnd, k),
    ));
    let body_code = match generate_statement_tac(body, code_env, ctx) {
        Ok(code) => code,
        Err(e) => {
            return Err(e);
        },
    };
    let ghost body_view = tac_view(body_code@);
    code_env.exit_loop();
    code_env.restore_scope(mark);
    assert(code_env@.loops =~= env.loops);
    assert(code_env@ == env);
    assert(env.vars.take(env.vars.len() as int) =~= env.vars);

    let mut result: Vec<TacInstr> = Vec::new();
    emit(&mut result, TacInstr::Label(make_label(LabelKind::WhileStart, k)));
    assert(tac_view(result@) =~= seq![TacInstrView::Label(label_text(LabelKind::WhileStart, k))]);
    emit(&mut cond_code, TacInstr::JmpZero(make_label(LabelKind::WhileEnd, k), cond_val));
    emit_all(&mut result, cond_code);
    emit_all(&mut result, body_code);
    let tail = pair_code(
        TacInstr::Jmp(make_label(LabelKind::WhileStart, k)),
        TacInstr::Label(make_label(LabelKind::WhileEnd, k)),
    );
    emit_all(&mut result, tail);
    assert(tac_view(result@) == while_code(k, rc, body_view));
    Ok(result)
}

fn gen_for_tac(
    init: &Statement,
    cond: &Option<Expr>,
    post: &Option<Expr>,
    body: &Statement,
    code_env: &mut CodeEnv,
    ctx: &mut TacContext,
) -> (res: Result<Vec<TacInstr>, CompileError>)
    ensures
        stmt_lowered_as(
            res,
            old(code_env)@,
            final(code_env)@,
            *final(ctx),
            lower_for(
                init@,
                opt_expr_view(*cond),
                opt_expr_view(*post),
                body@,
                old(code_env)@,
                *old(ctx),
            ),
        ),
    decreases 1 + stmt_height(init@) + stmt_height(body@), 1nat,
{
    let ghost env = code_env@;
    let mark = code_env.scope_mark();
    let k = match ctx.get_new_label_number() {
        Ok(k) => k,
        Err(e) => {
            return Err(e);
        },
    };
    let mut result = match generate_statement_tac(init, code_env, ctx) {
        Ok(code) => code,
        Err(e) => {
            return Err(e);
        },
    };
    let ghost init_view = tac_view(result@);
    let ghost vars = code_env@.vars;
    let inner_mark = code_env.scope_mark();
    let cond_code = match gen_opt_cond_tac(cond, code_env, make_label(LabelKind::ForEnd, k), ctx) {
        Ok(code) => code,
        Err(e) => {
            return Err(e);
        },
    };
    let ghost cond_view = tac_view(cond_code@);
    code_env.enter_loop(make_label(LabelKind::ForPost, k), make_label(LabelKind::ForEnd, k));
    assert(code_env@ == inside_loop(
        vars,
        env,
        label_text(LabelKind::ForPost, k),
        label_text(LabelKind::ForEnd, k),
    ));
    let mut body_code = match generate_statement_tac(body, code_env, ctx) {
        Ok(code) => code,
        Err(e) => {
            return Err(e);
        },
    };
    let ghost body_view = tac_view(body_code@);
    code_env.exit_loop();
    code_env.restore_scope(inner_mark);
    assert(code_env@.vars == vars);
    let post_code = match gen_opt_expr_tac(post, code_env, ctx) {
        Ok(code) => code,
        Err(e) => {
            return Err(e);
        },
    };
    let ghost post_view = tac_view(post_code@);
    code_env.restore_scope(mark);
    assert(code_env@.loops =~= env.loops);
    assert(code_env@.vars =~= env.vars);
    assert(code_env@ == env);
    assert(env.vars.take(env.vars.len() as int) =~= env.vars);

    emit(&mut result, TacInstr::Label(make_label(LabelKind::ForStart, k)));
    emit_all(&mut result, cond_code);
    emit(&mut body_code, TacInstr::Label(make_label(LabelKind::ForPost, k)));
    emit_all(&mut result, body_code);
    emit_all(&mut result, post_code);
    let tail = pair_code(
        TacInstr::Jmp(make_label(LabelKind::ForStart, k)),
        TacInstr::Label(make_label(LabelKind::ForEnd, k)),
    );
    emit_all(&mut result, tail);
    assert(tac_view(result@) == for_code(k, init_view, cond_view, body_view, post_view));
    Ok(result)
}

/// Lowers the statements of a list, one after the other. Declarations
/// stay in scope: it is for the caller to end the scope.
pub fn generate_compound_stmt_tac(
    stmts: &Vec<Statement>,
    code_env: &mut CodeEnv,
    ctx: &mut TacContext,
) -> (res: Result<Vec<TacInstr>, CompileError>)
    ensures
        stmt_lowered_as(
            res,
            old(code_env)@,
            final(code_env)@,
            *final(ctx),
            lower_stmts(stmts_view(stmts@), old(code_env)@, *old(ctx)),
        ),
    decreases 1 + stmt_heights(stmts_view(stmts@)), 1nat,
{
    let ghost env = code_env@;
    let ghost start = *ctx;
    let ghost views = stmts_view(stmts@);
    let mut result = new_code();
    assert(env.vars.take(env.vars.len() as int) =~= env.vars);
    let mut i: usize = 0;
    while i < stmts.len()
        invariant
            i <= stmts.len(),
            views == stmts_view(stmts@),
            env == old(code_env)@,
            start == *old(ctx),
            code_env@.loops == env.loops,
            code_env@.vars.len() >= env.vars.len(),
            code_env@.vars.take(env.vars.len() as int) == env.vars,
            lower_stmts(views.take(i as int), env, start) == Ok::<StmtTac, CompileErrorView>(
                StmtTac { code: tac_view(result@), vars: code_env@.vars, ctx: *ctx },
            ),
        decreases stmts.len() - i,
    {
        assert(views.take(i + 1).drop_last() =~= views.take(i as int));
        assert(views.take(i + 1).last() == stmts@[i as int]@);
        assert(code_env@ == CodeEnvView { vars: code_env@.vars, loops: env.loops });
        proof {
            lemma_stmt_heights_bound(views, i as int);
        }
        let ghost before = code_env@.vars;
        match generate_statement_tac(&stmts[i], code_env, ctx) {
            Ok(code) => {
                emit_all(&mut result, code);
                assert(code_env@.vars.take(env.vars.len() as int) =~= before.take(
                    env.vars.len() as int,
                ));
            },
            Err(e) => {
                proof {
                    assert(lower_stmts(views.take(i + 1), env, start) == Err::<
                        StmtTac,
                        CompileErrorView,
                    >(e@));
                    lemma_lower_stmts_fails(views, env, start, i + 1);
                }
                return Err(e);
            },
        }
        i += 1;
    }
    assert(views.take(i as int) =~= views);
    Ok(result)
}

/// Lowers a statement: returns its instructions and brings the
/// environment and the counters to where they stand after it. Fails on a
/// variable that is not declared and on `break` or `continue` outside a
/// loop.
pub fn generate_statement_tac(stmt: &Statement, code_env: &mut CodeEnv, ctx: &mut TacContext) -> (res:
    Result<Vec<TacInstr>, CompileError>)
    ensures
        stmt_lowered_as(
            res,
            old(code_env)@,
            final(code_env)@,
            *final(ctx),
            lower_stmt(stmt@, old(code_env)@, *old(ctx)),
        ),
    decreases stmt_height(stmt@), 2nat,
{
    let ghost env = code_env@;
    assert(env.vars.take(env.vars.len() as int) =~= env.vars);
    match stmt {
        Statement::Empty => Ok(new_code()),
        Statement::Expr(e) => match generate_expr_tac(e, code_env, None, None, ctx) {
            Ok((code, _)) => Ok(code),
            Err(err) => Err(err),
        },
        Statement::Return(e) => match generate_expr_tac(e, code_env, None, None, ctx) {
            Ok((mut code, val)) => {
                emit(&mut code, TacInstr::Exit(val));
                Ok(code)
            },
            Err(err) => Err(err),
        },
        Statement::Declare(name, init, ty) => gen_declare_tac(name, init, ty, code_env, ctx),
        Statement::Break => gen_jump_out_tac(true, code_env),
        Statement::Continue => gen_jump_out_tac(false, code_env),
        Statement::CompoundStmt(stmts) => {
            proof {
                lemma_stmt_list_view(*stmts);
                assert(stmt@ == StatementView::CompoundStmt(stmts_view(stmts@)));
                assert(stmt_height(stmt@) == 1 + stmt_heights(stmts_view(stmts@)));
            }
            let mark = code_env.scope_mark();
            match generate_compound_stmt_tac(stmts, code_env, ctx) {
                Ok(code) => {
                    code_env.restore_scope(mark);
                    Ok(code)
                },
                Err(e) => Err(e),
            }
        },
        Statement::If(cond, taken, not_taken) => gen_if_tac(cond, taken, not_taken, code_env, ctx),
        Statement::While(cond, body) => gen_while_tac(cond, body, code_env, ctx),
        Statement::For(init, cond, post, body) => gen_for_tac(
            init,
            cond,
            post,
            body,
            code_env,
            ctx,
        ),
    }
}

/// The mathematical value of the result of lowering a function.
pub open spec fn lowering_view(res: Result<Vec<TacInstr>, CompileError>) -> Result<
    Seq<TacInstrView>,
    CompileErrorView,
> {
    match res {
        Ok(code) => Ok(tac_view(code@)),
        Err(e) => Err(e@),
    }
}

/// Lowers a function to three-address code. The counters of temporaries
/// and labels start at zero, so that the same function always gives the
/// same code.
pub fn generate_function_tac(function: &Function) -> (res: Result<Vec<TacInstr>, CompileError>)
    ensures
        lowering_view(res) == lower_function(function@),
{
    let mut code_env = CodeEnv::new();
    let mut ctx = TacContext::new();
    match generate_compound_stmt_tac(&function.body, &mut code_env, &mut ctx) {
        Ok(mut code) => {
            emit(&mut code, TacInstr::Exit(TacVal::Lit(0, VarSize::default())));
            Ok(code)
        },
        Err(e) => Err(e),
    }
}

} // verus!
