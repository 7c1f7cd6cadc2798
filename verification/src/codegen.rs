//! Expansion of three-address code into x86-64 instructions.
//!
//! Every temporary lives in a stack slot of its own, at a fixed distance
//! below the frame pointer. Each instruction of three-address code expands
//! to a short run of machine instructions that loads its operands into
//! scratch registers, computes, and stores the result in its slot.

pub mod asm_gen;
pub mod binop;
pub mod functions;
pub mod laws;
pub mod reg;
pub mod unop;

use std::collections::HashMap;
use vstd::prelude::*;
use crate::errors::{CompileError, CompileErrorView};
use crate::parser::expr_parser::{BinOp, UnOp};
use crate::tac::{instr_reads, instr_writes, tac_view, Identifier, TacInstr, TacInstrView, TacVal};
use crate::types::VarSize;
use self::binop::gen_binop_code;
use self::functions::generate_function_call_code;
use self::laws::{
    lemma_program_stack_neutral, lemma_write_order_known, lemma_write_order_sound, stack_neutral,
};
use self::reg::{arg_reg, Reg};
use self::unop::gen_unop_code;

verus! {

/// A condition on the flags that a comparison has set.
#[derive(Debug, Clone, Copy, PartialEq, Eq, Structural)]
pub enum CCode {
    E,
    NE,
    L,
    LE,
    G,
    GE,
}

/// Where a value lives: in a register, or in the frame at a distance below
/// the frame pointer.
#[derive(Clone, Copy, Debug, PartialEq, Eq, Structural)]
pub enum Location {
    Reg(Reg),
    Mem(usize),
}

/// One machine instruction.
#[derive(Debug, PartialEq, Eq)]
#[allow(inconsistent_fields)]
pub enum X86Instr {
    Push { reg: Reg },
    Pop { reg: Reg },
    Mov { dst: Location, src: Location },
    MovImm { dst: Location, imm: i64 },
    Add { dst: Reg, src: Reg },
    Sub { dst: Reg, src: Reg },
    IMul { dst: Reg, src: Reg },
    SubImm { dst: Reg, imm: i32 },
    /// Sign-extends the accumulator into the data register.
    Cdq,
    /// Divides by `src`: quotient to the accumulator, remainder to the data
    /// register.
    Idiv { src: Reg },
    Label { name: String },
    Jmp { label: String },
    JmpCC { label: String, condition: CCode },
    /// Sets the low byte of `dst` to 1 if the condition holds, else to 0.
    SetCC { dst: Reg, condition: CCode },
    /// Sets the flags from `src & src`.
    Test { src: Reg },
    /// Sets the flags from `left - right`.
    Cmp { left: Reg, right: Reg },
    /// Bitwise complement.
    Not { dst: Reg },
    /// Additive inverse.
    Neg { dst: Reg },
    Call { name: String },
    Syscall,
}

/// The mathematical value of an [`X86Instr`].
#[allow(inconsistent_fields)]
pub enum X86InstrView {
    Push { reg: Reg },
    Pop { reg: Reg },
    Mov { dst: Location, src: Location },
    MovImm { dst: Location, imm: i64 },
    Add { dst: Reg, src: Reg },
    Sub { dst: Reg, src: Reg },
    IMul { dst: Reg, src: Reg },
    SubImm { dst: Reg, imm: i32 },
    Cdq,
    Idiv { src: Reg },
    Label { name: Seq<char> },
    Jmp { label: Seq<char> },
    JmpCC { label: Seq<char>, condition: CCode },
    SetCC { dst: Reg, condition: CCode },
    Test { src: Reg },
    Cmp { left: Reg, right: Reg },
    Not { dst: Reg },
    Neg { dst: Reg },
    Call { name: Seq<char> },
    Syscall,
}

impl View for X86Instr {
    type V = X86InstrView;

    open spec fn view(&self) -> X86InstrView {
        match self {
            X86Instr::Push { reg } => X86InstrView::Push { reg: *reg },
            X86Instr::Pop { reg } => X86InstrView::Pop { reg: *reg },
            X86Instr::Mov { dst, src } => X86InstrView::Mov { dst: *dst, src: *src },
            X86Instr::MovImm { dst, imm } => X86InstrView::MovImm { dst: *dst, imm: *imm },
            X86Instr::Add { dst, src } => X86InstrView::Add { dst: *dst, src: *src },
            X86Instr::Sub { dst, src } => X86InstrView::Sub { dst: *dst, src: *src },
            X86Instr::IMul { dst, src } => X86InstrView::IMul { dst: *dst, src: *src },
            X86Instr::SubImm { dst, imm } => X86InstrView::SubImm { dst: *dst, imm: *imm },
            X86Instr::Cdq => X86InstrView::Cdq,
            X86Instr::Idiv { src } => X86InstrView::Idiv { src: *src },
            X86Instr::Label { name } => X86InstrView::Label { name: name@ },
            X86Instr::Jmp { label } => X86InstrView::Jmp { label: label@ },
            X86Instr::JmpCC { label, condition } => X86InstrView::JmpCC {
                label: label@,
                condition: *condition,
            },
            X86Instr::SetCC { dst, condition } => X86InstrView::SetCC {
                dst: *dst,
                condition: *condition,
            },
            X86Instr::Test { src } => X86InstrView::Test { src: *src },
            X86Instr::Cmp { left, right } => X86InstrView::Cmp { left: *left, right: *right },
            X86Instr::Not { dst } => X86InstrView::Not { dst: *dst },
            X86Instr::Neg { dst } => X86InstrView::Neg { dst: *dst },
            X86Instr::Call { name } => X86InstrView::Call { name: name@ },
            X86Instr::Syscall => X86InstrView::Syscall,
        }
    }
}

/// The mathematical value of a list of machine instructions.
pub open spec fn x86_view(code: Seq<X86Instr>) -> Seq<X86InstrView> {
    code.map_values(|i: X86Instr| i@)
}

/// Appends one machine instruction to a list.
pub fn push_instr(out: &mut Vec<X86Instr>, instr: X86Instr)
    ensures
        x86_view(final(out)@) == x86_view(old(out)@).push(instr@),
{
    out.push(instr);
    assert(x86_view(out@) =~= x86_view(old(out)@).push(instr@));
}


impl CCode {
    /// The mnemonic suffix that names the condition.
    pub fn to_suffix(&self) -> (s: String)
        ensures
            s@ == ccode_suffix(*self),
    {
        match self {
            CCode::E => "e".to_owned(),
            CCode::NE => "ne".to_owned(),
            CCode::L => "l".to_owned(),
            CCode::LE => "le".to_owned(),
            CCode::G => "g".to_owned(),
            CCode::GE => "ge".to_owned(),
        }
    }
}

/// The mnemonic suffix that names a condition.
pub open spec fn ccode_suffix(c: CCode) -> Seq<char> {
    match c {
        CCode::E => "e"@,
        CCode::NE => "ne"@,
        CCode::L => "l"@,
        CCode::LE => "le"@,
        CCode::G => "g"@,
        CCode::GE => "ge"@,
    }
}

/// The condition under which a comparison operator yields 1, or `None` for
/// an operator that is no comparison.
pub open spec fn comparison_code(op: BinOp) -> Option<CCode> {
    match op {
        BinOp::Equals => Some(CCode::E),
        BinOp::NotEquals => Some(CCode::NE),
        BinOp::LessThan => Some(CCode::L),
        BinOp::LessThanEq => Some(CCode::LE),
        BinOp::GreaterThan => Some(CCode::G),
        BinOp::GreaterThanEq => Some(CCode::GE),
        _ => None,
    }
}

// ---------------------------------------------------------------------
// Allocation of stack slots
// ---------------------------------------------------------------------

/// The leftmost of `reads` that `known` does not hold, if there is one.
pub open spec fn first_missing(reads: Seq<Identifier>, known: Seq<Identifier>) -> Option<
    Identifier,
>
    decreases reads.len(),
{
    if reads.len() == 0 {
        None
    } else {
        match first_missing(reads.drop_last(), known) {
            Some(id) => Some(id),
            None => if known.contains(reads.last()) {
                None
            } else {
                Some(reads.last())
            },
        }
    }
}

/// `known` with the written temporary added at the end, if it is new.
pub open spec fn note_write(known: Seq<Identifier>, written: Option<Identifier>) -> Seq<
    Identifier,
> {
    match written {
        Some(id) => if known.contains(id) {
            known
        } else {
            known.push(id)
        },
        None => known,
    }
}

/// The temporaries of `code` in the order of their first writes, or the
/// first temporary that an instruction reads before any instruction wrote
/// it.
pub open spec fn write_order(code: Seq<TacInstrView>) -> Result<Seq<Identifier>, Identifier>
    decreases code.len(),
{
    if code.len() == 0 {
        Ok(Seq::empty())
    } else {
        match write_order(code.drop_last()) {
            Err(id) => Err(id),
            Ok(known) => match first_missing(instr_reads(code.last()), known) {
                Some(id) => Err(id),
                None => Ok(note_write(known, instr_writes(code.last()))),
            },
        }
    }
}

/// Every read of a temporary comes after a write of it: for each
/// instruction and each temporary it reads, an earlier instruction writes
/// that temporary.
pub open spec fn reads_follow_writes(code: Seq<TacInstrView>) -> bool {
    forall|j: int, k: int|
        0 <= j < code.len() && 0 <= k < instr_reads(code[j]).len() ==> written_before(
            code,
            j,
            #[trigger] instr_reads(code[j])[k],
        )
}

/// Some instruction before the one at index `j` writes `id`.
pub open spec fn written_before(code: Seq<TacInstrView>, j: int, id: Identifier) -> bool {
    exists|i: int| 0 <= i < j && i < code.len() && #[trigger] instr_writes(code[i]) == Some(id)
}

/// Index of the first occurrence of `id` in `order`, or the length of
/// `order` if there is none.
pub open spec fn position(order: Seq<Identifier>, id: Identifier) -> nat
    decreases order.len(),
{
    if order.len() == 0 {
        0
    } else if order[0] == id {
        0
    } else {
        1 + position(order.drop_first(), id)
    }
}

/// The largest number of bytes that a frame may hold.
pub open spec fn max_frame_bytes() -> int {
    0x7fff_ffff
}

/// The slot of the temporary `id`: four bytes for each temporary up to and
/// including it, in the order of first writes.
pub open spec fn slot(order: Seq<Identifier>, id: Identifier) -> Location {
    Location::Mem(((position(order, id) + 1) * 4) as usize)
}

/// The number that stands for a temporary in the table of slots. A
/// temporary is its number and its width together, so the key holds both.
pub open spec fn slot_key(id: Identifier) -> u128 {
    (id.0 * 4 + id.1.rank()) as u128
}

/// Two temporaries with one key are one temporary.
pub proof fn lemma_slot_key_injective(a: Identifier, b: Identifier)
    requires
        slot_key(a) == slot_key(b),
    ensures
        a == b,
{
}

/// The table holds, for each temporary of `order` and for nothing else,
/// the position of the temporary in `order`.
pub open spec fn indexes(table: Map<u128, usize>, order: Seq<Identifier>) -> bool {
    &&& forall|id: Identifier|
        order.contains(id) ==> table.contains_key(#[trigger] slot_key(id)) && table[slot_key(id)]
            == position(order, id)
    &&& forall|k: u128| #[trigger]
        table.contains_key(k) ==> exists|id: Identifier|
            order.contains(id) && #[trigger] slot_key(id) == k
}

/// A temporary that follows the others has the position behind them, and
/// the others keep theirs.
pub proof fn lemma_position_push(order: Seq<Identifier>, x: Identifier, id: Identifier)
    ensures
        order.contains(id) ==> position(order.push(x), id) == position(order, id),
        !order.contains(id) && x == id ==> position(order.push(x), id) == order.len(),
        position(order, id) <= order.len(),
    decreases order.len(),
{
    if order.len() == 0 {
        assert(order.push(x).drop_first() =~= Seq::<Identifier>::empty());
    } else {
        assert(order.push(x).drop_first() =~= order.drop_first().push(x));
        assert(order.push(x)[0] == order[0]);
        lemma_position_push(order.drop_first(), x, id);
        if order[0] != id {
            if order.contains(id) {
                let k = choose|k: int| 0 <= k < order.len() && order[k] == id;
                assert(order.drop_first()[k - 1] == id);
            }
            if order.drop_first().contains(id) {
                let k = choose|k: int|
                    0 <= k < order.drop_first().len() && order.drop_first()[k] == id;
                assert(order[k + 1] == id);
            }
        }
    }
}

/// A temporary of a list has a position within the list.
pub proof fn lemma_position_within(order: Seq<Identifier>, id: Identifier)
    requires
        order.contains(id),
    ensures
        position(order, id) < order.len(),
    decreases order.len(),
{
    if order[0] != id {
        let k = choose|k: int| 0 <= k < order.len() && order[k] == id;
        assert(order.drop_first()[k - 1] == id);
        lemma_position_within(order.drop_first(), id);
    }
}

/// The assignment of a stack slot to every temporary of a program: a
/// table from each temporary to its place in the order of first writes.
pub struct RegisterAllocator {
    map: HashMap<u128, usize>,
    order: Ghost<Seq<Identifier>>,
}

impl View for RegisterAllocator {
    type V = Seq<Identifier>;

    /// The temporaries in the order of their slots.
    closed spec fn view(&self) -> Seq<Identifier> {
        self.order@
    }
}

/// The number that stands for a temporary in the table of slots.
fn key_of(id: Identifier) -> (k: u128)
    ensures
        k == slot_key(id),
{
    let rank: u128 = match id.1 {
        VarSize::Byte => 0,
        VarSize::Word => 1,
        VarSize::Dword => 2,
        VarSize::Quad => 3,
    };
    id.0 as u128 * 4 + rank
}

fn holds(table: &HashMap<u128, usize>, id: Identifier, Ghost(order): Ghost<Seq<Identifier>>) -> (found:
    bool)
    requires
        indexes(table@, order),
    ensures
        found == order.contains(id),
{
    broadcast use vstd::std_specs::hash::group_hash_axioms;

    let key = key_of(id);
    let found = table.contains_key(&key);
    proof {
        if table@.contains_key(key) {
            let other = choose|other: Identifier|
                order.contains(other) && #[trigger] slot_key(other) == key;
            lemma_slot_key_injective(other, id);
        }
    }
    found
}

fn find_missing(
    reads: &Vec<Identifier>,
    table: &HashMap<u128, usize>,
    Ghost(order): Ghost<Seq<Identifier>>,
) -> (missing: Option<Identifier>)
    requires
        indexes(table@, order),
    ensures
        missing == first_missing(reads@, order),
{
    let mut i: usize = 0;
    while i < reads.len()
        invariant
            i <= reads.len(),
            indexes(table@, order),
            first_missing(reads@.take(i as int), order) is None,
        decreases reads.len() - i,
    {
        assert(reads@.take(i + 1).drop_last() =~= reads@.take(i as int));
        if !holds(table, reads[i], Ghost(order)) {
            proof {
                lemma_first_missing_extends(reads@, order, i + 1);
            }
            return Some(reads[i]);
        }
        i += 1;
    }
    assert(reads@.take(i as int) =~= reads@);
    None
}

/// A temporary missing from a prefix of the reads is the first one missing
/// from all of them.
proof fn lemma_first_missing_extends(reads: Seq<Identifier>, known: Seq<Identifier>, n: int)
    requires
        0 <= n <= reads.len(),
        first_missing(reads.take(n), known) is Some,
    ensures
        first_missing(reads, known) == first_missing(reads.take(n), known),
    decreases reads.len() - n,
{
    if n < reads.len() {
        assert(reads.take(n + 1).drop_last() =~= reads.take(n));
        lemma_first_missing_extends(reads, known, n + 1);
    } else {
        assert(reads.take(n) =~= reads);
    }
}

impl RegisterAllocator {
    /// The table of the allocator holds the position of each of its
    /// temporaries.
    pub closed spec fn indexed(&self) -> bool {
        indexes(self.map@, self.order@)
    }

    /// The allocator is usable: no temporary has two slots, the table
    /// knows the slot of each, and the frame is small enough to be
    /// addressed.
    pub open spec fn wf(&self) -> bool {
        &&& self@.no_duplicates()
        &&& self@.len() * 4 <= max_frame_bytes()
        &&& self.indexed()
    }

    /// Gives every temporary of `tac_instrs` a slot, in the order of first
    /// writes, and returns the allocator with the size of the frame in
    /// bytes. Fails if an instruction reads a temporary that no earlier
    /// instruction wrote, or if the frame would be too large.
    pub fn new(tac_instrs: &Vec<TacInstr>) -> (res: Result<(RegisterAllocator, usize), CompileError>)
        ensures
            match write_order(tac_view(tac_instrs@)) {
                Err(id) => res matches Err(e) && e@ == CompileErrorView::ReadBeforeWrite(id),
                Ok(order) => if order.len() * 4 > max_frame_bytes() {
                    res matches Err(e) && e@ == CompileErrorView::FrameTooLarge
                } else {
                    res matches Ok(pair) && pair.0@ == order && pair.0.wf() && pair.1 == 4
                        * order.len()
                },
            },
    {
        broadcast use vstd::std_specs::hash::group_hash_axioms;

        let ghost code = tac_view(tac_instrs@);
        let mut map: HashMap<u128, usize> = HashMap::new();
        let ghost mut order: Seq<Identifier> = Seq::empty();
        let mut count: usize = 0;
        let mut i: usize = 0;
        while i < tac_instrs.len()
            invariant
                i <= tac_instrs.len(),
                code == tac_view(tac_instrs@),
                write_order(code.take(i as int)) == Ok::<Seq<Identifier>, Identifier>(order),
                order.no_duplicates(),
                order.len() <= i,
                count == order.len(),
                indexes(map@, order),
            decreases tac_instrs.len() - i,
        {
            assert(code.take(i + 1).drop_last() =~= code.take(i as int));
            assert(code.take(i + 1).last() == tac_instrs@[i as int]@);
            let reads = tac_instrs[i].get_read_identifiers();
            match find_missing(&reads, &map, Ghost(order)) {
                Some(id) => {
                    proof {
                        lemma_write_order_fails(code, i + 1);
                    }
                    return Err(CompileError::ReadBeforeWrite(id));
                },
                None => {},
            }
            match tac_instrs[i].get_written_identifier() {
                Some(id) => {
                    if !holds(&map, id, Ghost(order)) {
                        let ghost before = order;
                        let ghost table = map@;
                        map.insert(key_of(id), count);
                        proof {
                            order = before.push(id);
                            assert forall|other: Identifier| order.contains(other) implies map@.contains_key(
                                #[trigger] slot_key(other),
                            ) && map@[slot_key(other)] == position(order, other) by {
                                lemma_position_push(before, id, other);
                                if other != id {
                                    let k = choose|k: int| 0 <= k < order.len() && order[k] == other;
                                    assert(before[k] == other);
                                    if slot_key(other) == slot_key(id) {
                                        lemma_slot_key_injective(other, id);
                                    }
                                }
                            }
                            assert forall|k: u128| #[trigger] map@.contains_key(k) implies exists|
                                other: Identifier,
                            |
                                order.contains(other) && #[trigger] slot_key(other) == k by {
                                if k == slot_key(id) {
                                    assert(order[before.len() as int] == id);
                                } else {
                                    assert(table.contains_key(k));
                                    let other = choose|other: Identifier|
                                        before.contains(other) && #[trigger] slot_key(other) == k;
                                    let j = choose|j: int| 0 <= j < before.len() && before[j] == other;
                                    assert(order[j] == other);
                                }
                            }
                        }
                        count += 1;
                    }
                },
                None => {},
            }
            i += 1;
        }
        assert(code.take(i as int) =~= code);
        if count > 0x1fff_ffff {
            return Err(CompileError::FrameTooLarge);
        }
        let bytes: usize = count * 4;
        Ok((RegisterAllocator { map, order: Ghost(order) }, bytes))
    }

    /// The slot of a temporary that has one.
    pub fn get_location(&self, temporary: Identifier) -> (loc: Location)
        requires
            self.wf(),
            self@.contains(temporary),
        ensures
            loc == slot(self@, temporary),
    {
        broadcast use vstd::std_specs::hash::group_hash_axioms;

        proof {
            lemma_position_within(self.order@, temporary);
        }
        let key = key_of(temporary);
        match self.map.get(&key) {
            Some(place) => Location::Mem((*place + 1) * 4),
            None => vstd::pervasive::unreached(),
        }
    }
}

/// Once a prefix of the code reads a temporary too early, the whole code
/// fails with the same temporary.
proof fn lemma_write_order_fails(code: Seq<TacInstrView>, n: int)
    requires
        0 <= n <= code.len(),
        write_order(code.take(n)) is Err,
    ensures
        write_order(code) == write_order(code.take(n)),
    decreases code.len() - n,
{
    if n < code.len() {
        assert(code.take(n + 1).drop_last() =~= code.take(n));
        lemma_write_order_fails(code, n + 1);
    } else {
        assert(code.take(n) =~= code);
    }
}


// ---------------------------------------------------------------------
// The expansion of each instruction
// ---------------------------------------------------------------------

/// The temporary that `v` names, if it names one, has a slot.
pub open spec fn val_known(v: TacVal, order: Seq<Identifier>) -> bool {
    v matches TacVal::Var(id) ==> order.contains(id)
}

/// Every temporary that the instruction names has a slot.
pub open spec fn instr_known(i: TacInstrView, order: Seq<Identifier>) -> bool {
    match i {
        TacInstrView::Exit(v) => val_known(v, order),
        TacInstrView::BinOp(d, a, b, _) => order.contains(d) && val_known(a, order) && val_known(
            b,
            order,
        ),
        TacInstrView::UnOp(d, v, _) => order.contains(d) && val_known(v, order),
        TacInstrView::Copy(d, v) => order.contains(d) && val_known(v, order),
        TacInstrView::Label(_) => true,
        TacInstrView::Jmp(_) => true,
        TacInstrView::JmpZero(_, v) => val_known(v, order),
        TacInstrView::JmpNotZero(_, v) => val_known(v, order),
        TacInstrView::Call(_, args, d) => (forall|k: int|
            0 <= k < args.len() ==> val_known(#[trigger] args[k], order)) && (d matches Some(id)
            ==> order.contains(id)),
        TacInstrView::DerefStore(p, v) => order.contains(p) && val_known(v, order),
    }
}

/// The instruction that brings the value `v` into the register `reg`: an
/// immediate move for a constant, a move from its slot for a temporary.
pub open spec fn load_val(v: TacVal, reg: Reg, order: Seq<Identifier>) -> X86InstrView {
    match v {
        TacVal::Lit(n, _) => X86InstrView::MovImm { dst: Location::Reg(reg), imm: n },
        TacVal::Var(id) => X86InstrView::Mov { dst: Location::Reg(reg), src: slot(order, id) },
    }
}

/// The instruction that stores the register `reg` in the slot of `d`.
pub open spec fn store_reg(d: Identifier, reg: Reg, order: Seq<Identifier>) -> X86InstrView {
    X86InstrView::Mov { dst: slot(order, d), src: Location::Reg(reg) }
}

/// The expansion of `d = a op b`, or `None` for the two operators that have
/// no instruction of their own because they are lowered to jumps.
pub open spec fn binop_code(
    d: Identifier,
    a: TacVal,
    b: TacVal,
    op: BinOp,
    order: Seq<Identifier>,
) -> Option<Seq<X86InstrView>> {
    match op {
        BinOp::Plus => Some(
            seq![
                load_val(a, Reg::Rdi, order),
                load_val(b, Reg::Rsi, order),
                X86InstrView::Add { dst: Reg::Rdi, src: Reg::Rsi },
                store_reg(d, Reg::Rdi, order),
            ],
        ),
        BinOp::Minus => Some(
            seq![
                load_val(a, Reg::Rdi, order),
                load_val(b, Reg::Rsi, order),
                X86InstrView::Sub { dst: Reg::Rdi, src: Reg::Rsi },
                store_reg(d, Reg::Rdi, order),
            ],
        ),
        BinOp::Multiply => Some(
            seq![
                load_val(a, Reg::Rdi, order),
                load_val(b, Reg::Rsi, order),
                X86InstrView::IMul { dst: Reg::Rdi, src: Reg::Rsi },
                store_reg(d, Reg::Rdi, order),
            ],
        ),
        BinOp::Divide => Some(
            seq![
                load_val(a, Reg::Rax, order),
                X86InstrView::Cdq,
                load_val(b, Reg::Rdi, order),
                X86InstrView::Idiv { src: Reg::Rdi },
                store_reg(d, Reg::Rax, order),
            ],
        ),
        BinOp::Modulus => Some(
            seq![
                load_val(a, Reg::Rax, order),
                X86InstrView::Cdq,
                load_val(b, Reg::Rdi, order),
                X86InstrView::Idiv { src: Reg::Rdi },
                store_reg(d, Reg::Rdx, order),
            ],
        ),
        BinOp::LogicalAnd => None,
        BinOp::LogicalOr => None,
        _ => Some(
            seq![
                load_val(a, Reg::Rdi, order),
                load_val(b, Reg::Rsi, order),
                X86InstrView::Cmp { left: Reg::Rdi, right: Reg::Rsi },
                X86InstrView::MovImm { dst: Location::Reg(Reg::Rdi), imm: 0 },
                X86InstrView::SetCC { dst: Reg::Rdi, condition: comparison_code(op).unwrap() },
                store_reg(d, Reg::Rdi, order),
            ],
        ),
    }
}

/// The expansion of `d = op v`.
pub open spec fn unop_code(d: Identifier, v: TacVal, op: UnOp, order: Seq<Identifier>) -> Seq<
    X86InstrView,
> {
    match op {
        UnOp::Negation => seq![
            load_val(v, Reg::Rdi, order),
            X86InstrView::Neg { dst: Reg::Rdi },
            store_reg(d, Reg::Rdi, order),
        ],
        UnOp::BitwiseComplement => seq![
            load_val(v, Reg::Rdi, order),
            X86InstrView::Not { dst: Reg::Rdi },
            store_reg(d, Reg::Rdi, order),
        ],
        UnOp::LogicalNot => seq![
            load_val(v, Reg::Rdi, order),
            X86InstrView::Test { src: Reg::Rdi },
            X86InstrView::MovImm { dst: Location::Reg(Reg::Rdi), imm: 0 },
            X86InstrView::SetCC { dst: Reg::Rdi, condition: CCode::E },
            store_reg(d, Reg::Rdi, order),
        ],
    }
}

/// The number of arguments that travel in registers.
pub open spec fn register_args(args: Seq<TacVal>) -> nat {
    if args.len() < 6 {
        args.len()
    } else {
        6
    }
}

/// The loads that bring the first six arguments into their registers.
pub open spec fn load_args(args: Seq<TacVal>, order: Seq<Identifier>) -> Seq<X86InstrView> {
    Seq::new(register_args(args), |i: int| load_val(args[i], arg_reg(i), order))
}

/// The expansion of a call: the arguments, the call, and the store of the
/// returned value if the call has a destination.
pub open spec fn call_code(
    name: Seq<char>,
    args: Seq<TacVal>,
    d: Option<Identifier>,
    order: Seq<Identifier>,
) -> Seq<X86InstrView> {
    load_args(args, order) + seq![X86InstrView::Call { name }] + match d {
        Some(id) => seq![store_reg(id, Reg::Rax, order)],
        None => Seq::empty(),
    }
}

/// The machine instructions that one instruction of three-address code
/// expands to, or the error for an instruction that has no expansion.
pub open spec fn expand_instr(i: TacInstrView, order: Seq<Identifier>) -> Result<
    Seq<X86InstrView>,
    CompileErrorView,
> {
    match i {
        TacInstrView::Exit(v) => Ok(
            seq![
                load_val(v, Reg::Rdi, order),
                X86InstrView::MovImm { dst: Location::Reg(Reg::Rax), imm: 60 },
                X86InstrView::Syscall,
            ],
        ),
        TacInstrView::BinOp(d, a, b, op) => match binop_code(d, a, b, op, order) {
            Some(code) => Ok(code),
            None => Err(CompileErrorView::UnsupportedInstruction),
        },
        TacInstrView::UnOp(d, v, op) => Ok(unop_code(d, v, op, order)),
        TacInstrView::Copy(d, v) => Ok(
            seq![load_val(v, Reg::Rdi, order), store_reg(d, Reg::Rdi, order)],
        ),
        TacInstrView::Label(name) => Ok(seq![X86InstrView::Label { name }]),
        TacInstrView::Jmp(label) => Ok(seq![X86InstrView::Jmp { label }]),
        TacInstrView::JmpZero(label, v) => Ok(
            seq![
                load_val(v, Reg::Rdi, order),
                X86InstrView::Test { src: Reg::Rdi },
                X86InstrView::JmpCC { label, condition: CCode::E },
            ],
        ),
        TacInstrView::JmpNotZero(label, v) => Ok(
            seq![
                load_val(v, Reg::Rdi, order),
                X86InstrView::Test { src: Reg::Rdi },
                X86InstrView::JmpCC { label, condition: CCode::NE },
            ],
        ),
        TacInstrView::Call(name, args, d) => Ok(call_code(name, args, d, order)),
        TacInstrView::DerefStore(_, _) => Err(CompileErrorView::UnsupportedInstruction),
    }
}

/// The expansions of all instructions of `code`, one after the other, or
/// the error of the first instruction that has none.
pub open spec fn expand_all(code: Seq<TacInstrView>, order: Seq<Identifier>) -> Result<
    Seq<X86InstrView>,
    CompileErrorView,
>
    decreases code.len(),
{
    if code.len() == 0 {
        Ok(Seq::empty())
    } else {
        match expand_all(code.drop_last(), order) {
            Err(e) => Err(e),
            Ok(front) => match expand_instr(code.last(), order) {
                Err(e) => Err(e),
                Ok(back) => Ok(front + back),
            },
        }
    }
}

/// The instructions that open a frame of the given size.
pub open spec fn prologue(frame_bytes: i32) -> Seq<X86InstrView> {
    seq![
        X86InstrView::Push { reg: Reg::Rbp },
        X86InstrView::Mov { dst: Location::Reg(Reg::Rbp), src: Location::Reg(Reg::Rsp) },
        X86InstrView::SubImm { dst: Reg::Rsp, imm: frame_bytes },
    ]
}

/// The instructions that close the frame.
pub open spec fn epilogue() -> Seq<X86InstrView> {
    seq![
        X86InstrView::Mov { dst: Location::Reg(Reg::Rsp), src: Location::Reg(Reg::Rbp) },
        X86InstrView::Pop { reg: Reg::Rbp },
    ]
}

/// The machine code of a program in three-address code: the prologue, the
/// expansion of every instruction in order, and the epilogue. It is an
/// error if a temporary is read before it is written, if the frame would
/// be too large, or if an instruction has no expansion, in this order.
pub open spec fn x86_program(code: Seq<TacInstrView>) -> Result<
    Seq<X86InstrView>,
    CompileErrorView,
> {
    match write_order(code) {
        Err(id) => Err(CompileErrorView::ReadBeforeWrite(id)),
        Ok(order) => if order.len() * 4 > max_frame_bytes() {
            Err(CompileErrorView::FrameTooLarge)
        } else {
            match expand_all(code, order) {
                Err(e) => Err(e),
                Ok(body) => Ok(prologue((order.len() * 4) as i32) + body + epilogue()),
            }
        },
    }
}


/// The mathematical value of what the generator returns.
pub open spec fn generated_view(res: Result<Vec<X86Instr>, CompileError>) -> Result<
    Seq<X86InstrView>,
    CompileErrorView,
> {
    match res {
        Ok(code) => Ok(x86_view(code@)),
        Err(e) => Err(e@),
    }
}

/// Appends the instruction that brings `val` into `reg`.
pub fn gen_load_val_code(
    result: &mut Vec<X86Instr>,
    val: &TacVal,
    reg: Reg,
    reg_alloc: &RegisterAllocator,
)
    requires
        reg_alloc.wf(),
        val_known(*val, reg_alloc@),
    ensures
        x86_view(final(result)@) == x86_view(old(result)@).push(load_val(*val, reg, reg_alloc@)),
{
    match val {
        TacVal::Lit(imm, _) => push_instr(
            result,
            X86Instr::MovImm { dst: Location::Reg(reg), imm: *imm },
        ),
        TacVal::Var(var_ident) => {
            let loc = reg_alloc.get_location(*var_ident);
            push_instr(result, X86Instr::Mov { dst: Location::Reg(reg), src: loc });
        },
    }
}

/// Appends the instruction that stores `reg` in the slot of `dst`.
pub fn gen_store_code(
    result: &mut Vec<X86Instr>,
    dst: Identifier,
    reg: Reg,
    reg_alloc: &RegisterAllocator,
)
    requires
        reg_alloc.wf(),
        reg_alloc@.contains(dst),
    ensures
        x86_view(final(result)@) == x86_view(old(result)@).push(store_reg(dst, reg, reg_alloc@)),
{
    let loc = reg_alloc.get_location(dst);
    push_instr(result, X86Instr::Mov { dst: loc, src: Location::Reg(reg) });
}

/// Appends the expansion of one instruction of three-address code.
pub fn gen_x86_for_tac(
    result: &mut Vec<X86Instr>,
    instr: &TacInstr,
    reg_alloc: &RegisterAllocator,
) -> (res: Result<(), CompileError>)
    requires
        reg_alloc.wf(),
        instr@ is DerefStore || instr_known(instr@, reg_alloc@),
    ensures
        match expand_instr(instr@, reg_alloc@) {
            Ok(code) => res is Ok && x86_view(final(result)@) == x86_view(old(result)@) + code,
            Err(e) => res matches Err(err) && err@ == e,
        },
{
    let ghost before = x86_view(result@);
    match instr {
        TacInstr::Exit(val) => {
            gen_load_val_code(result, val, Reg::Rdi, reg_alloc);
            // 60 is the number of the system call that ends the process
            push_instr(result, X86Instr::MovImm { dst: Location::Reg(Reg::Rax), imm: 60 });
            push_instr(result, X86Instr::Syscall);
        },
        TacInstr::BinOp(dst_ident, val1, val2, op) => {
            return gen_binop_code(result, dst_ident, val1, val2, *op, reg_alloc);
        },
        TacInstr::UnOp(dst_ident, val, op) => {
            gen_unop_code(result, dst_ident, val, *op, reg_alloc);
        },
        TacInstr::Copy(dst_ident, src_val) => {
            gen_load_val_code(result, src_val, Reg::Rdi, reg_alloc);
            gen_store_code(result, *dst_ident, Reg::Rdi, reg_alloc);
        },
        TacInstr::Label(label_name) => {
            push_instr(result, X86Instr::Label { name: label_name.clone() });
        },
        TacInstr::Jmp(label_name) => {
            push_instr(result, X86Instr::Jmp { label: label_name.clone() });
        },
        TacInstr::JmpZero(label_name, val) => {
            gen_load_val_code(result, val, Reg::Rdi, reg_alloc);
            push_instr(result, X86Instr::Test { src: Reg::Rdi });
            push_instr(result, X86Instr::JmpCC { label: label_name.clone(), condition: CCode::E });
        },
        TacInstr::JmpNotZero(label_name, val) => {
            gen_load_val_code(result, val, Reg::Rdi, reg_alloc);
            push_instr(result, X86Instr::Test { src: Reg::Rdi });
            push_instr(
                result,
                X86Instr::JmpCC { label: label_name.clone(), condition: CCode::NE },
            );
        },
        TacInstr::Call(function_name, args, optional_ident) => {
            generate_function_call_code(result, function_name, args, *optional_ident, reg_alloc);
        },
        TacInstr::DerefStore(_, _) => {
            return Err(CompileError::UnsupportedInstruction);
        },
    }
    assert(x86_view(result@) =~= before + expand_instr(instr@, reg_alloc@)->Ok_0);
    Ok(())
}

/// Expands a program in three-address code into machine instructions:
/// a prologue that opens a frame with a slot for every temporary, the
/// expansion of each instruction in order, and an epilogue that closes the
/// frame.
pub fn generate_x86_code(tac_instrs: &Vec<TacInstr>) -> (res: Result<Vec<X86Instr>, CompileError>)
    ensures
        generated_view(res) == x86_program(tac_view(tac_instrs@)),
        res is Ok ==> reads_follow_writes(tac_view(tac_instrs@)),
        res matches Ok(out) ==> stack_neutral(x86_view(out@)),
{
    let ghost code = tac_view(tac_instrs@);
    let mut result: Vec<X86Instr> = Vec::new();

    let (reg_alloc, num_bytes_needed) = match RegisterAllocator::new(tac_instrs) {
        Ok(pair) => pair,
        Err(e) => {
            return Err(e);
        },
    };
    let ghost order = reg_alloc@;
    proof {
        lemma_write_order_known(code);
        lemma_write_order_sound(code);
    }

    push_instr(&mut result, X86Instr::Push { reg: Reg::Rbp });
    push_instr(
        &mut result,
        X86Instr::Mov { dst: Location::Reg(Reg::Rbp), src: Location::Reg(Reg::Rsp) },
    );
    push_instr(&mut result, X86Instr::SubImm { dst: Reg::Rsp, imm: num_bytes_needed as i32 });
    let ghost opening = prologue((order.len() * 4) as i32);
    assert(x86_view(result@) =~= opening + Seq::<X86InstrView>::empty());

    let mut i: usize = 0;
    while i < tac_instrs.len()
        invariant
            i <= tac_instrs.len(),
            code == tac_view(tac_instrs@),
            order == reg_alloc@,
            reg_alloc.wf(),
            write_order(code) == Ok::<Seq<Identifier>, Identifier>(order),
            forall|j: int|
                0 <= j < code.len() && !(#[trigger] code[j] is DerefStore) ==> instr_known(
                    code[j],
                    order,
                ),
            expand_all(code.take(i as int), order) is Ok,
            x86_view(result@) == opening + expand_all(code.take(i as int), order)->Ok_0,
        decreases tac_instrs.len() - i,
    {
        assert(code.take(i + 1).drop_last() =~= code.take(i as int));
        assert(code.take(i + 1).last() == code[i as int]);
        assert(code[i as int] == tac_instrs@[i as int]@);
        let ghost front = expand_all(code.take(i as int), order)->Ok_0;
        match gen_x86_for_tac(&mut result, &tac_instrs[i], &reg_alloc) {
            Ok(()) => {
                assert(x86_view(result@) =~= opening + (front + expand_instr(
                    code[i as int],
                    order,
                )->Ok_0));
            },
            Err(e) => {
                proof {
                    assert(expand_instr(code[i as int], order) == Err::<
                        Seq<X86InstrView>,
                        CompileErrorView,
                    >(e@));
                    assert(expand_all(code.take(i + 1), order) == Err::<
                        Seq<X86InstrView>,
                        CompileErrorView,
                    >(e@));
                    lemma_expand_all_fails(code, order, i + 1);
                }
                return Err(e);
            },
        }
        i += 1;
    }
    assert(code.take(i as int) =~= code);
    let ghost body = expand_all(code, order)->Ok_0;

    push_instr(
        &mut result,
        X86Instr::Mov { dst: Location::Reg(Reg::Rsp), src: Location::Reg(Reg::Rbp) },
    );
    push_instr(&mut result, X86Instr::Pop { reg: Reg::Rbp });
    assert(x86_view(result@) =~= opening + body + epilogue());
    proof {
        lemma_program_stack_neutral(code);
    }
    Ok(result)
}

/// Once a prefix of the code holds an instruction without an expansion,
/// the whole code fails with the same error.
proof fn lemma_expand_all_fails(code: Seq<TacInstrView>, order: Seq<Identifier>, n: int)
    requires
        0 <= n <= code.len(),
        expand_all(code.take(n), order) is Err,
    ensures
        expand_all(code, order) == expand_all(code.take(n), order),
    decreases code.len() - n,
{
    if n < code.len() {
        assert(code.take(n + 1).drop_last() =~= code.take(n));
        lemma_expand_all_fails(code, order, n + 1);
    } else {
        assert(code.take(n) =~= code);
    }
}

} // verus!
