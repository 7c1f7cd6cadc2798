//! Three-address code: the linear form between the syntax tree and the
//! machine instructions.

pub mod array_init_expr;
pub mod expr;
pub mod labels;
pub mod laws;
pub mod prefix_postfix_inc_dec;
pub mod stmt;

use vstd::prelude::*;
use crate::errors::{CompileError, CompileErrorView};
use crate::parser::expr_parser::{BinOp, UnOp};
use crate::types::VarSize;

verus! {

/// A temporary: a number that no other temporary of the compilation has,
/// and the width of the value it holds.
#[derive(Clone, Copy, Debug, PartialEq, Eq, Structural, Hash)]
pub struct Identifier(pub u64, pub VarSize);

/// The two counters of a compilation: the number of the next temporary
/// and the number of the next pair of labels. Both only grow, so that no
/// number is handed out twice.
#[derive(Clone, Copy, Debug, PartialEq, Eq, Structural)]
pub struct TacContext {
    pub next_temp: u64,
    pub next_label: u64,
}

/// A fresh temporary of the given width and the counters after it, or an
/// error if the counter of temporaries has run out.
pub open spec fn fresh_temp(ctx: TacContext, size: VarSize) -> Result<
    (Identifier, TacContext),
    CompileErrorView,
> {
    if ctx.next_temp == u64::MAX {
        Err(CompileErrorView::CounterExhausted)
    } else {
        Ok(
            (
                Identifier(ctx.next_temp, size),
                TacContext { next_temp: (ctx.next_temp + 1) as u64, next_label: ctx.next_label },
            ),
        )
    }
}

/// A fresh label number and the counters after it, or an error if the
/// counter of labels has run out.
pub open spec fn fresh_label(ctx: TacContext) -> Result<(u64, TacContext), CompileErrorView> {
    if ctx.next_label == u64::MAX {
        Err(CompileErrorView::CounterExhausted)
    } else {
        Ok(
            (
                ctx.next_label,
                TacContext { next_temp: ctx.next_temp, next_label: (ctx.next_label + 1) as u64 },
            ),
        )
    }
}

impl TacContext {
    /// The counters at the start of a compilation.
    pub fn new() -> (ctx: TacContext)
        ensures
            ctx == (TacContext { next_temp: 0, next_label: 0 }),
    {
        TacContext { next_temp: 0, next_label: 0 }
    }

    /// Hands out a temporary that no earlier call has handed out.
    pub fn get_new_temp_name(&mut self, size: VarSize) -> (res: Result<Identifier, CompileError>)
        ensures
            match fresh_temp(*old(self), size) {
                Ok(pair) => res == Ok::<Identifier, CompileError>(pair.0) && *final(self)
                    == pair.1,
                Err(e) => res matches Err(err) && err@ == e && *final(self) == *old(self),
            },
    {
        if self.next_temp == u64::MAX {
            return Err(CompileError::CounterExhausted);
        }
        let id = Identifier(self.next_temp, size);
        self.next_temp = self.next_temp + 1;
        Ok(id)
    }

    /// Hands out a label number that no earlier call has handed out.
    pub fn get_new_label_number(&mut self) -> (res: Result<u64, CompileError>)
        ensures
            match fresh_label(*old(self)) {
                Ok(pair) => res == Ok::<u64, CompileError>(pair.0) && *final(self) == pair.1,
                Err(e) => res matches Err(err) && err@ == e && *final(self) == *old(self),
            },
    {
        if self.next_label == u64::MAX {
            return Err(CompileError::CounterExhausted);
        }
        let n = self.next_label;
        self.next_label = self.next_label + 1;
        Ok(n)
    }
}

/// The temporary that holds a variable of the program.
#[derive(Debug, PartialEq, Eq)]
pub struct Binding {
    pub name: String,
    pub id: Identifier,
}

/// The mathematical value of a [`Binding`].
pub struct BindingView {
    pub name: Seq<char>,
    pub id: Identifier,
}

impl View for Binding {
    type V = BindingView;

    open spec fn view(&self) -> BindingView {
        BindingView { name: self.name@, id: self.id }
    }
}

/// The labels that `continue` and `break` jump to inside a loop.
#[derive(Debug, PartialEq, Eq)]
pub struct LoopLabels {
    pub continue_label: String,
    pub break_label: String,
}

/// The mathematical value of a [`LoopLabels`].
pub struct LoopLabelsView {
    pub continue_label: Seq<char>,
    pub break_label: Seq<char>,
}

impl View for LoopLabels {
    type V = LoopLabelsView;

    open spec fn view(&self) -> LoopLabelsView {
        LoopLabelsView { continue_label: self.continue_label@, break_label: self.break_label@ }
    }
}

/// What is in scope at a point of the program: the variables, innermost
/// declaration last, and the loops around the point, innermost last.
#[derive(Debug, PartialEq, Eq)]
pub struct CodeEnv {
    pub vars: Vec<Binding>,
    pub loops: Vec<LoopLabels>,
}

/// The mathematical value of a [`CodeEnv`].
pub struct CodeEnvView {
    pub vars: Seq<BindingView>,
    pub loops: Seq<LoopLabelsView>,
}

impl View for CodeEnv {
    type V = CodeEnvView;

    open spec fn view(&self) -> CodeEnvView {
        CodeEnvView {
            vars: self.vars@.map_values(|b: Binding| b@),
            loops: self.loops@.map_values(|l: LoopLabels| l@),
        }
    }
}

/// The temporary of the innermost declaration of `name`, if there is one.
pub open spec fn resolve(vars: Seq<BindingView>, name: Seq<char>) -> Option<Identifier>
    decreases vars.len(),
{
    if vars.len() == 0 {
        None
    } else if vars.last().name == name {
        Some(vars.last().id)
    } else {
        resolve(vars.drop_last(), name)
    }
}

/// The temporary of the variable `name`, or the error for a name that is
/// not declared.
pub open spec fn lookup(vars: Seq<BindingView>, name: Seq<char>) -> Result<
    Identifier,
    CompileErrorView,
> {
    match resolve(vars, name) {
        Some(id) => Ok(id),
        None => Err(CompileErrorView::UndeclaredVariable(name)),
    }
}

impl CodeEnv {
    /// An environment with nothing in scope.
    pub fn new() -> (env: CodeEnv)
        ensures
            env@ == (CodeEnvView { vars: Seq::empty(), loops: Seq::empty() }),
    {
        let env = CodeEnv { vars: Vec::new(), loops: Vec::new() };
        assert(env@.vars =~= Seq::empty());
        assert(env@.loops =~= Seq::empty());
        env
    }

    /// Declares a variable: from here on `name` means `id`, until the
    /// scope ends.
    pub fn bind(&mut self, name: String, id: Identifier)
        ensures
            final(self)@.vars == old(self)@.vars.push(BindingView { name: name@, id }),
            final(self)@.loops == old(self)@.loops,
    {
        self.vars.push(Binding { name, id });
        assert(self@.vars =~= old(self)@.vars.push(BindingView { name: name@, id }));
    }

    /// The number of declarations in scope: a mark to return to when a
    /// scope that opens here ends.
    pub fn scope_mark(&self) -> (mark: usize)
        ensures
            mark == self@.vars.len(),
    {
        self.vars.len()
    }

    /// Ends a scope: forgets every declaration made since the mark.
    pub fn restore_scope(&mut self, mark: usize)
        requires
            mark <= old(self)@.vars.len(),
        ensures
            final(self)@.vars == old(self)@.vars.take(mark as int),
            final(self)@.loops == old(self)@.loops,
    {
        self.vars.truncate(mark);
        assert(self@.vars =~= old(self)@.vars.take(mark as int));
    }

    /// Enters a loop with the given targets for `continue` and `break`.
    pub fn enter_loop(&mut self, continue_label: String, break_label: String)
        ensures
            final(self)@.vars == old(self)@.vars,
            final(self)@.loops == old(self)@.loops.push(
                LoopLabelsView { continue_label: continue_label@, break_label: break_label@ },
            ),
    {
        self.loops.push(LoopLabels { continue_label, break_label });
        assert(self@.loops =~= old(self)@.loops.push(
            LoopLabelsView { continue_label: continue_label@, break_label: break_label@ },
        ));
    }

    /// Leaves the innermost loop.
    pub fn exit_loop(&mut self)
        requires
            old(self)@.loops.len() > 0,
        ensures
            final(self)@.vars == old(self)@.vars,
            final(self)@.loops == old(self)@.loops.drop_last(),
    {
        self.loops.pop();
        assert(self@.loops =~= old(self)@.loops.drop_last());
    }
}

/// Finds the temporary that holds the variable `name`: that of its
/// innermost declaration.
pub fn resolve_variable_to_temp_name(name: &String, code_env: &CodeEnv) -> (res: Result<
    Identifier,
    CompileError,
>)
    ensures
        match lookup(code_env@.vars, name@) {
            Ok(id) => res == Ok::<Identifier, CompileError>(id),
            Err(e) => res matches Err(err) && err@ == e,
        },
{
    let ghost vars = code_env@.vars;
    let mut i: usize = code_env.vars.len();
    assert(vars.take(i as int) =~= vars);
    while i > 0
        invariant
            i <= code_env.vars.len(),
            vars == code_env@.vars,
            resolve(vars, name@) == resolve(vars.take(i as int), name@),
        decreases i,
    {
        i -= 1;
        assert(vars.take(i + 1).drop_last() =~= vars.take(i as int));
        assert(vars.take(i + 1).last() == code_env.vars@[i as int]@);
        if code_env.vars[i].name == *name {
            return Ok(code_env.vars[i].id);
        }
    }
    Err(CompileError::UndeclaredVariable(name.clone()))
}

/// An operand: a constant or the contents of a temporary.
#[derive(Clone, Copy, Debug, PartialEq, Eq, Structural)]
pub enum TacVal {
    Lit(i64, VarSize),
    Var(Identifier),
}

/// One instruction of three-address code.
#[derive(Debug, PartialEq, Eq)]
pub enum TacInstr {
    /// End the program with the value as its status.
    Exit(TacVal),
    /// Store the result of a binary operation on two values.
    BinOp(Identifier, TacVal, TacVal, BinOp),
    /// Store the result of a unary operation on a value.
    UnOp(Identifier, TacVal, UnOp),
    /// Store a value.
    Copy(Identifier, TacVal),
    /// A place that jumps can name.
    Label(String),
    /// Continue at a label.
    Jmp(String),
    /// Continue at a label if the value is zero.
    JmpZero(String, TacVal),
    /// Continue at a label if the value is not zero.
    JmpNotZero(String, TacVal),
    /// Call a function with arguments and store what it returns.
    Call(String, Vec<TacVal>, Option<Identifier>),
    /// Store a value at the address held in a temporary.
    DerefStore(Identifier, TacVal),
}

/// The mathematical value of a [`TacInstr`].
pub enum TacInstrView {
    Exit(TacVal),
    BinOp(Identifier, TacVal, TacVal, BinOp),
    UnOp(Identifier, TacVal, UnOp),
    Copy(Identifier, TacVal),
    Label(Seq<char>),
    Jmp(Seq<char>),
    JmpZero(Seq<char>, TacVal),
    JmpNotZero(Seq<char>, TacVal),
    Call(Seq<char>, Seq<TacVal>, Option<Identifier>),
    DerefStore(Identifier, TacVal),
}

impl View for TacInstr {
    type V = TacInstrView;

    open spec fn view(&self) -> TacInstrView {
        match self {
            TacInstr::Exit(v) => TacInstrView::Exit(*v),
            TacInstr::BinOp(d, a, b, op) => TacInstrView::BinOp(*d, *a, *b, *op),
            TacInstr::UnOp(d, v, op) => TacInstrView::UnOp(*d, *v, *op),
            TacInstr::Copy(d, v) => TacInstrView::Copy(*d, *v),
            TacInstr::Label(l) => TacInstrView::Label(l@),
            TacInstr::Jmp(l) => TacInstrView::Jmp(l@),
            TacInstr::JmpZero(l, v) => TacInstrView::JmpZero(l@, *v),
            TacInstr::JmpNotZero(l, v) => TacInstrView::JmpNotZero(l@, *v),
            TacInstr::Call(f, args, d) => TacInstrView::Call(f@, args@, *d),
            TacInstr::DerefStore(p, v) => TacInstrView::DerefStore(*p, *v),
        }
    }
}

/// The mathematical value of a list of instructions.
pub open spec fn tac_view(code: Seq<TacInstr>) -> Seq<TacInstrView> {
    code.map_values(|i: TacInstr| i@)
}

/// The temporary that a value reads, if it is no constant.
pub open spec fn val_reads(v: TacVal) -> Seq<Identifier> {
    match v {
        TacVal::Lit(_, _) => Seq::empty(),
        TacVal::Var(id) => seq![id],
    }
}

/// The temporaries that a list of values reads, in order.
pub open spec fn vals_reads(vs: Seq<TacVal>) -> Seq<Identifier>
    decreases vs.len(),
{
    if vs.len() == 0 {
        Seq::empty()
    } else {
        vals_reads(vs.drop_last()) + val_reads(vs.last())
    }
}

/// The temporaries that an instruction reads, in the order of its operands.
pub open spec fn instr_reads(i: TacInstrView) -> Seq<Identifier> {
    match i {
        TacInstrView::Exit(v) => val_reads(v),
        TacInstrView::BinOp(_, a, b, _) => val_reads(a) + val_reads(b),
        TacInstrView::UnOp(_, v, _) => val_reads(v),
        TacInstrView::Copy(_, v) => val_reads(v),
        TacInstrView::Label(_) => Seq::empty(),
        TacInstrView::Jmp(_) => Seq::empty(),
        TacInstrView::JmpZero(_, v) => val_reads(v),
        TacInstrView::JmpNotZero(_, v) => val_reads(v),
        TacInstrView::Call(_, args, _) => vals_reads(args),
        TacInstrView::DerefStore(p, v) => seq![p] + val_reads(v),
    }
}

/// The temporary that an instruction writes, if any.
pub open spec fn instr_writes(i: TacInstrView) -> Option<Identifier> {
    match i {
        TacInstrView::BinOp(d, _, _, _) => Some(d),
        TacInstrView::UnOp(d, _, _) => Some(d),
        TacInstrView::Copy(d, _) => Some(d),
        TacInstrView::Call(_, _, d) => d,
        _ => None,
    }
}

fn push_val_reads(out: &mut Vec<Identifier>, v: &TacVal)
    ensures
        final(out)@ == old(out)@ + val_reads(*v),
{
    match v {
        TacVal::Lit(_, _) => {
            assert(out@ =~= old(out)@ + val_reads(*v));
        },
        TacVal::Var(id) => {
            out.push(*id);
            assert(out@ =~= old(out)@ + val_reads(*v));
        },
    }
}

impl TacInstr {
    /// The temporaries that the instruction reads, in the order of its
    /// operands.
    pub fn get_read_identifiers(&self) -> (ids: Vec<Identifier>)
        ensures
            ids@ == instr_reads(self@),
    {
        let mut ids: Vec<Identifier> = Vec::new();
        match self {
            TacInstr::Exit(v) => push_val_reads(&mut ids, v),
            TacInstr::BinOp(_, a, b, _) => {
                push_val_reads(&mut ids, a);
                push_val_reads(&mut ids, b);
            },
            TacInstr::UnOp(_, v, _) => push_val_reads(&mut ids, v),
            TacInstr::Copy(_, v) => push_val_reads(&mut ids, v),
            TacInstr::Label(_) => {},
            TacInstr::Jmp(_) => {},
            TacInstr::JmpZero(_, v) => push_val_reads(&mut ids, v),
            TacInstr::JmpNotZero(_, v) => push_val_reads(&mut ids, v),
            TacInstr::Call(_, args, _) => {
                let mut i: usize = 0;
                while i < args.len()
                    invariant
                        i <= args.len(),
                        ids@ == vals_reads(args@.take(i as int)),
                    decreases args.len() - i,
                {
                    assert(args@.take(i + 1).drop_last() =~= args@.take(i as int));
                    push_val_reads(&mut ids, &args[i]);
                    i += 1;
                }
                assert(args@.take(i as int) =~= args@);
            },
            TacInstr::DerefStore(p, v) => {
                ids.push(*p);
                push_val_reads(&mut ids, v);
            },
        }
        assert(ids@ =~= instr_reads(self@));
        ids
    }

    /// The temporary that the instruction writes, if any.
    pub fn get_written_identifier(&self) -> (id: Option<Identifier>)
        ensures
            id == instr_writes(self@),
    {
        match self {
            TacInstr::BinOp(d, _, _, _) => Some(*d),
            TacInstr::UnOp(d, _, _) => Some(*d),
            TacInstr::Copy(d, _) => Some(*d),
            TacInstr::Call(_, _, d) => *d,
            _ => None,
        }
    }
}

/// Appends one instruction to a list.
pub fn emit(out: &mut Vec<TacInstr>, instr: TacInstr)
    ensures
        tac_view(final(out)@) == tac_view(old(out)@).push(instr@),
{
    out.push(instr);
    assert(tac_view(out@) =~= tac_view(old(out)@).push(instr@));
}

/// Appends a list of instructions to another.
pub fn emit_all(out: &mut Vec<TacInstr>, more: Vec<TacInstr>)
    ensures
        tac_view(final(out)@) == tac_view(old(out)@) + tac_view(more@),
{
    let mut more = more;
    let ghost added = more@;
    out.append(&mut more);
    assert(tac_view(out@) =~= tac_view(old(out)@) + tac_view(added));
}

} // verus!
