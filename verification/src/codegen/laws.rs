//! What holds of every program that the code generator accepts.

use vstd::prelude::*;
use crate::codegen::reg::{arg_reg, is_frame_reg, Reg};
use crate::codegen::{
    expand_all, expand_instr, first_missing, instr_known, load_args, load_val, reads_follow_writes,
    slot, val_known, write_order, written_before, x86_program, Location, X86InstrView,
};
use crate::tac::{instr_reads, instr_writes, val_reads, vals_reads, Identifier, TacInstrView, TacVal};

verus! {

/// The instruction leaves the frame pointer and the stack pointer as they
/// are. A call counts as doing so: by the calling convention the callee
/// returns with both restored.
pub open spec fn keeps_frame(i: X86InstrView) -> bool {
    match i {
        X86InstrView::Push { .. } => false,
        X86InstrView::Pop { .. } => false,
        X86InstrView::Mov { dst, .. } => !(dst matches Location::Reg(r) && is_frame_reg(r)),
        X86InstrView::MovImm { dst, .. } => !(dst matches Location::Reg(r) && is_frame_reg(r)),
        X86InstrView::Add { dst, .. } => !is_frame_reg(dst),
        X86InstrView::Sub { dst, .. } => !is_frame_reg(dst),
        X86InstrView::IMul { dst, .. } => !is_frame_reg(dst),
        X86InstrView::SubImm { dst, .. } => !is_frame_reg(dst),
        X86InstrView::SetCC { dst, .. } => !is_frame_reg(dst),
        X86InstrView::Not { dst } => !is_frame_reg(dst),
        X86InstrView::Neg { dst } => !is_frame_reg(dst),
        _ => true,
    }
}

/// Between the three instructions of the prologue and the two of the
/// epilogue, no instruction moves the frame pointer or the stack pointer:
/// both are at the end of the body where they were at its start.
pub open spec fn stack_neutral(out: Seq<X86InstrView>) -> bool {
    &&& out.len() >= 5
    &&& forall|i: int| 3 <= i < out.len() - 2 ==> keeps_frame(#[trigger] out[i])
}

/// No read is missing exactly if every read is known.
pub proof fn lemma_first_missing_none(reads: Seq<Identifier>, known: Seq<Identifier>)
    ensures
        first_missing(reads, known) is None <==> forall|k: int|
            0 <= k < reads.len() ==> known.contains(#[trigger] reads[k]),
    decreases reads.len(),
{
    if reads.len() > 0 {
        lemma_first_missing_none(reads.drop_last(), known);
        if first_missing(reads, known) is None {
            assert forall|k: int| 0 <= k < reads.len() implies known.contains(
                #[trigger] reads[k],
            ) by {
                if k < reads.len() - 1 {
                    assert(reads.drop_last()[k] == reads[k]);
                }
            }
        } else {
            if first_missing(reads.drop_last(), known) is None {
                assert(!known.contains(reads[reads.len() - 1]));
            } else {
                let k = choose|k: int|
                    0 <= k < reads.drop_last().len() && !known.contains(
                        #[trigger] reads.drop_last()[k],
                    );
                assert(reads[k] == reads.drop_last()[k]);
            }
        }
    }
}

/// Each temporary among the values is one of their reads.
pub proof fn lemma_vals_reads_holds(vs: Seq<TacVal>, k: int)
    requires
        0 <= k < vs.len(),
    ensures
        vs[k] matches TacVal::Var(id) ==> vals_reads(vs).contains(id),
    decreases vs.len(),
{
    let front = vals_reads(vs.drop_last());
    let back = val_reads(vs.last());
    if k < vs.len() - 1 {
        lemma_vals_reads_holds(vs.drop_last(), k);
        if let TacVal::Var(id) = vs[k] {
            let i = choose|i: int| 0 <= i < front.len() && front[i] == id;
            assert((front + back)[i] == id);
        }
    } else {
        if let TacVal::Var(id) = vs[k] {
            assert((front + back)[front.len() as int] == id);
        }
    }
}

/// If every read of an instruction is known and so is what it writes, then
/// every temporary that it names is known.
pub proof fn lemma_reads_known(i: TacInstrView, known: Seq<Identifier>)
    requires
        first_missing(instr_reads(i), known) is None,
        instr_writes(i) matches Some(d) ==> known.contains(d),
    ensures
        i !is DerefStore ==> instr_known(i, known),
{
    let reads = instr_reads(i);
    lemma_first_missing_none(reads, known);
    match i {
        TacInstrView::BinOp(d, a, b, _) => {
            if let TacVal::Var(id) = a {
                assert(reads[0] == id);
            }
            if let TacVal::Var(id) = b {
                assert(reads[reads.len() - 1] == id);
            }
        },
        TacInstrView::Call(_, args, _) => {
            assert forall|k: int| 0 <= k < args.len() implies val_known(
                #[trigger] args[k],
                known,
            ) by {
                lemma_vals_reads_holds(args, k);
                if let TacVal::Var(id) = args[k] {
                    let j = choose|j: int| 0 <= j < reads.len() && reads[j] == id;
                    assert(known.contains(reads[j]));
                }
            }
        },
        TacInstrView::Exit(v) => {
            if let TacVal::Var(id) = v {
                assert(reads[0] == id);
            }
        },
        TacInstrView::UnOp(_, v, _) => {
            if let TacVal::Var(id) = v {
                assert(reads[0] == id);
            }
        },
        TacInstrView::Copy(_, v) => {
            if let TacVal::Var(id) = v {
                assert(reads[0] == id);
            }
        },
        TacInstrView::JmpZero(_, v) => {
            if let TacVal::Var(id) = v {
                assert(reads[0] == id);
            }
        },
        TacInstrView::JmpNotZero(_, v) => {
            if let TacVal::Var(id) = v {
                assert(reads[0] == id);
            }
        },
        _ => {},
    }
}

/// The order of first writes holds exactly the temporaries that some
/// instruction writes, each once.
pub proof fn lemma_write_order_members(code: Seq<TacInstrView>)
    requires
        write_order(code) is Ok,
    ensures
        write_order(code).unwrap().no_duplicates(),
        forall|id: Identifier|
            write_order(code).unwrap().contains(id) <==> written_before(
                code,
                code.len() as int,
                id,
            ),
    decreases code.len(),
{
    let order = write_order(code).unwrap();
    if code.len() > 0 {
        let front = code.drop_last();
        let known = write_order(front).unwrap();
        lemma_write_order_members(front);
        let w = instr_writes(code.last());
        assert forall|id: Identifier| order.contains(id) <==> written_before(
            code,
            code.len() as int,
            id,
        ) by {
            if order.contains(id) {
                if known.contains(id) {
                    let i = choose|i: int|
                        0 <= i < front.len() && #[trigger] instr_writes(front[i]) == Some(id);
                    assert(instr_writes(code[i]) == Some(id));
                } else {
                    assert(w == Some(id)) by {
                        let k = choose|k: int| 0 <= k < order.len() && order[k] == id;
                        if w is Some && !known.contains(w.unwrap()) {
                            if k < known.len() {
                                assert(known[k] == id);
                            }
                        }
                    }
                    assert(instr_writes(code[code.len() - 1]) == Some(id));
                }
            }
            if written_before(code, code.len() as int, id) {
                let i = choose|i: int|
                    0 <= i < code.len() && #[trigger] instr_writes(code[i]) == Some(id);
                if i < front.len() {
                    assert(instr_writes(front[i]) == Some(id));
                    assert(known.contains(id));
                    let k = choose|k: int| 0 <= k < known.len() && known[k] == id;
                    if order != known {
                        assert(order[k] == id);
                    }
                } else {
                    if !known.contains(id) {
                        assert(order[known.len() as int] == id);
                    }
                }
            }
        }
    } else {
        assert forall|id: Identifier| !write_order(code).unwrap().contains(id) by {}
    }
}

/// The allocator accepts a program exactly if each of its reads of a
/// temporary comes after a write of that temporary.
pub proof fn lemma_write_order_sound(code: Seq<TacInstrView>)
    ensures
        write_order(code) is Ok <==> reads_follow_writes(code),
    decreases code.len(),
{
    if code.len() > 0 {
        let front = code.drop_last();
        let last = code.len() - 1;
        lemma_write_order_sound(front);
        if write_order(code) is Ok {
            let known = write_order(front).unwrap();
            lemma_write_order_members(front);
            lemma_first_missing_none(instr_reads(code.last()), known);
            assert forall|j: int, k: int|
                0 <= j < code.len() && 0 <= k < instr_reads(code[j]).len() implies written_before(
                code,
                j,
                #[trigger] instr_reads(code[j])[k],
            ) by {
                let id = instr_reads(code[j])[k];
                if j < last {
                    assert(front[j] == code[j]);
                    assert(written_before(front, j, instr_reads(front[j])[k]));
                    let i = choose|i: int|
                        0 <= i < j && i < front.len() && #[trigger] instr_writes(front[i]) == Some(
                            id,
                        );
                    assert(instr_writes(code[i]) == Some(id));
                } else {
                    assert(known.contains(id));
                    let i = choose|i: int|
                        0 <= i < front.len() && #[trigger] instr_writes(front[i]) == Some(id);
                    assert(instr_writes(code[i]) == Some(id));
                }
            }
        }
        if reads_follow_writes(code) {
            assert forall|j: int, k: int|
                0 <= j < front.len() && 0 <= k < instr_reads(
                    front[j],
                ).len() implies written_before(front, j, #[trigger] instr_reads(front[j])[k]) by {
                let id = instr_reads(front[j])[k];
                assert(front[j] == code[j]);
                assert(written_before(code, j, instr_reads(code[j])[k]));
                let i = choose|i: int|
                    0 <= i < j && i < code.len() && #[trigger] instr_writes(code[i]) == Some(id);
                assert(instr_writes(front[i]) == Some(id));
            }
            let known = write_order(front).unwrap();
            lemma_write_order_members(front);
            let reads = instr_reads(code.last());
            assert forall|k: int| 0 <= k < reads.len() implies known.contains(
                #[trigger] reads[k],
            ) by {
                assert(written_before(code, last, instr_reads(code[last])[k]));
                let i = choose|i: int|
                    0 <= i < last && i < code.len() && #[trigger] instr_writes(code[i]) == Some(
                        reads[k],
                    );
                assert(instr_writes(front[i]) == Some(reads[k]));
            }
            lemma_first_missing_none(reads, known);
        }
    }
}

/// In a program that the allocator accepts, every temporary that an
/// instruction names has a slot, but for the operands of a store through a
/// pointer, which has no expansion.
pub proof fn lemma_write_order_known(code: Seq<TacInstrView>)
    requires
        write_order(code) is Ok,
    ensures
        forall|j: int|
            0 <= j < code.len() && !(#[trigger] code[j] is DerefStore) ==> instr_known(
                code[j],
                write_order(code).unwrap(),
            ),
    decreases code.len(),
{
    let order = write_order(code).unwrap();
    if code.len() > 0 {
        let front = code.drop_last();
        let known = write_order(front).unwrap();
        lemma_write_order_known(front);
        lemma_write_order_members(code);
        let last = code.len() - 1;
        assert forall|j: int|
            0 <= j < code.len() && !(#[trigger] code[j] is DerefStore) implies instr_known(
            code[j],
            order,
        ) by {
            assert(forall|id: Identifier| known.contains(id) ==> order.contains(id)) by {
                assert forall|id: Identifier| known.contains(id) implies order.contains(id) by {
                    let k = choose|k: int| 0 <= k < known.len() && known[k] == id;
                    if order != known {
                        assert(order[k] == id);
                    }
                }
            }
            if j < last {
                assert(front[j] == code[j]);
                lemma_known_grows(code[j], known, order);
            } else {
                lemma_first_missing_none(instr_reads(code[j]), known);
                lemma_first_missing_none(instr_reads(code[j]), order);
                if let Some(d) = instr_writes(code[j]) {
                    assert(instr_writes(code[last]) == Some(d));
                    assert(written_before(code, code.len() as int, d));
                }
                lemma_reads_known(code[j], order);
            }
        }
    }
}

/// Temporaries stay known when more become known.
pub proof fn lemma_known_grows(i: TacInstrView, known: Seq<Identifier>, more: Seq<Identifier>)
    requires
        instr_known(i, known),
        forall|id: Identifier| known.contains(id) ==> more.contains(id),
    ensures
        instr_known(i, more),
{
}

/// The expansion of an instruction neither pushes nor pops, and writes
/// neither the frame pointer nor the stack pointer.
pub proof fn lemma_expansion_keeps_frame(i: TacInstrView, order: Seq<Identifier>)
    requires
        expand_instr(i, order) is Ok,
    ensures
        forall|k: int|
            0 <= k < expand_instr(i, order)->Ok_0.len() ==> keeps_frame(
                #[trigger] expand_instr(i, order)->Ok_0[k],
            ),
{
    let code = expand_instr(i, order)->Ok_0;
    match i {
        TacInstrView::Call(name, args, d) => {
            let loads = load_args(args, order);
            assert forall|k: int| 0 <= k < code.len() implies keeps_frame(#[trigger] code[k]) by {
                if k < loads.len() {
                    assert(code[k] == load_val(args[k], arg_reg(k), order));
                }
            }
        },
        _ => {},
    }
}

/// The expansions of all instructions keep the frame.
pub proof fn lemma_body_keeps_frame(code: Seq<TacInstrView>, order: Seq<Identifier>)
    requires
        expand_all(code, order) is Ok,
    ensures
        forall|k: int|
            0 <= k < expand_all(code, order)->Ok_0.len() ==> keeps_frame(
                #[trigger] expand_all(code, order)->Ok_0[k],
            ),
    decreases code.len(),
{
    if code.len() > 0 {
        lemma_body_keeps_frame(code.drop_last(), order);
        lemma_expansion_keeps_frame(code.last(), order);
    }
}

/// Generated code is stack neutral: the frame pointer and the stack
/// pointer are, before the epilogue, where the prologue left them.
pub proof fn lemma_program_stack_neutral(code: Seq<TacInstrView>)
    requires
        x86_program(code) is Ok,
    ensures
        stack_neutral(x86_program(code)->Ok_0),
{
    let order = write_order(code).unwrap();
    let body = expand_all(code, order)->Ok_0;
    let out = x86_program(code)->Ok_0;
    lemma_body_keeps_frame(code, order);
    assert forall|i: int| 3 <= i < out.len() - 2 implies keeps_frame(#[trigger] out[i]) by {
        assert(out[i] == body[i - 3]);
    }
}

} // verus!
