//! The five pipeline stages and the cycle that runs them in reverse
//! pipeline order (commit, writeback, execute, decode, fetch), so that one
//! cycle of latency separates every stage.

use vstd::prelude::*;

use crate::cpu::{memory_issue, squashed, station_issue, CPU};
use crate::frontend::FetchUnit;
use crate::isa::{accepts, EncodedInstruction, ExecResult, FUType, Op, Operand};
use crate::lsq::{
    entry_committed, entry_resolved, executable, is_committed_store, LSQEntry, LSQOp, MemoryUnit,
};
use crate::predictor::{bumped, counter_step, table_index, BranchPredictor};
use crate::rob::{
    lemma_retire_in_flight, next_slot, result_fits, retire_result, with_result, Destination,
    ReorderBufferEntry,
    ReorderBufferResult,
};
use crate::station::{operand_value, resolved, ReservationStation};
use crate::unit::FunctionalUnit;
use crate::{COMMIT_WIDTH, DECODE_WIDTH, FETCH_WIDTH, MEM_LATENCY, NUM_REGS, NUM_RS, ROB_SIZE};

verus! {

/// `q1` is `q0` followed by what one fetch cycle reads from `fu`'s program,
/// and `pc` is where fetch stands afterwards: starting at `fu.pc`, each
/// instruction is queued with its pc and the next pc is the one `bp`
/// predicts for it; fetching ends after `FETCH_WIDTH` instructions or
/// before a `Halt`, which is what lies past the end of the program.
pub open spec fn fetched(
    fu: FetchUnit,
    bp: BranchPredictor,
    q0: Seq<(usize, EncodedInstruction)>,
    q1: Seq<(usize, EncodedInstruction)>,
    pc: usize,
) -> bool {
    let n = q1.len() - q0.len();
    let program = fu.instructions@;
    let at = |p: usize|
        if p < program.len() {
            program[p as int]
        } else {
            EncodedInstruction::Halt
        };
    &&& 0 <= n <= FETCH_WIDTH
    &&& q1.subrange(0, q0.len() as int) == q0
    &&& forall|i: int|
        q0.len() <= i < q1.len() ==> {
            &&& (#[trigger] q1[i]).1 == at(q1[i].0)
            &&& q1[i].1 != EncodedInstruction::Halt
            &&& q1[i].0 < program.len()
        }
    &&& n > 0 ==> q1[q0.len() as int].0 == fu.pc
    &&& forall|i: int|
        q0.len() < i < q1.len() ==> (#[trigger] q1[i]).0 == bp.prediction(q1[i - 1].1, q1[i - 1].0).0
    &&& n == 0 ==> pc == fu.pc
    &&& n > 0 ==> pc == bp.prediction(q1[q1.len() - 1].1, q1[q1.len() - 1].0).0
    &&& n < FETCH_WIDTH ==> at(pc) == EncodedInstruction::Halt
}

/// `new` is `old` after a fetch stage: after a misprediction a bubble
/// (only the flag is cleared); otherwise the decode queue grows as
/// `fetched` says, and only fetch, the queue and the predictor's recorded
/// predictions change.
pub open spec fn fetch_stage(old: CPU, new: CPU) -> bool {
    &&& new.exec_unit == old.exec_unit
    &&& new.rob == old.rob
    &&& new.registers == old.registers
    &&& new.lsq == old.lsq
    &&& new.fetch_unit.instructions == old.fetch_unit.instructions
    &&& !new.fetch_unit.reset
    &&& new.decode_unit.reset == old.decode_unit.reset
    &&& new.branch_predictor.bht@ == old.branch_predictor.bht@
    &&& new.branch_predictor.pred_type == old.branch_predictor.pred_type
    &&& new.branch_predictor.total_predictions == old.branch_predictor.total_predictions
    &&& new.branch_predictor.total_correct == old.branch_predictor.total_correct
    &&& if old.fetch_unit.reset {
        &&& new.decode_unit.instruction_q == old.decode_unit.instruction_q
        &&& new.fetch_unit.pc == old.fetch_unit.pc
        &&& new.branch_predictor == old.branch_predictor
    } else {
        fetched(
            old.fetch_unit,
            old.branch_predictor,
            old.decode_unit.instruction_q@,
            new.decode_unit.instruction_q@,
            new.fetch_unit.pc,
        )
    }
}

/// Fetches up to `FETCH_WIDTH` instructions into the decode queue, following
/// the branch predictor, and stops at a `Halt` (which is what lies past the
/// end of the program) without queueing it. After a misprediction the
/// cycle is a bubble instead.
pub fn fetch(cpu: &mut CPU)
    requires
        old(cpu).wf(),
    ensures
        final(cpu).wf(),
        final(cpu).exec_unit == old(cpu).exec_unit,
        final(cpu).rob == old(cpu).rob,
        final(cpu).registers == old(cpu).registers,
        final(cpu).lsq == old(cpu).lsq,
        final(cpu).fetch_unit.instructions == old(cpu).fetch_unit.instructions,
        final(cpu).decode_unit.reset == old(cpu).decode_unit.reset,
        old(cpu).fetch_unit.reset ==> {
            &&& !final(cpu).fetch_unit.reset
            &&& final(cpu).decode_unit.instruction_q == old(cpu).decode_unit.instruction_q
            &&& final(cpu).fetch_unit.pc == old(cpu).fetch_unit.pc
        },
        old(cpu).fetch_unit.current() == EncodedInstruction::Halt ==> final(
            cpu).decode_unit.instruction_q@ == old(cpu).decode_unit.instruction_q@,
        !old(cpu).fetch_unit.reset ==> fetched(
            old(cpu).fetch_unit,
            old(cpu).branch_predictor,
            old(cpu).decode_unit.instruction_q@,
            final(cpu).decode_unit.instruction_q@,
            final(cpu).fetch_unit.pc,
        ),
        final(cpu).branch_predictor.bht@ == old(cpu).branch_predictor.bht@,
        final(cpu).branch_predictor.pred_type == old(cpu).branch_predictor.pred_type,
        fetch_stage(*old(cpu), *final(cpu)),
{
    if cpu.fetch_unit.reset {
        cpu.fetch_unit.reset = false;
        return;
    }
    let ghost q0 = cpu.decode_unit.instruction_q@;
    let mut n: usize = 0;
    while n < FETCH_WIDTH
        invariant
            cpu.wf(),
            n <= FETCH_WIDTH,
            cpu.exec_unit == old(cpu).exec_unit,
            cpu.rob == old(cpu).rob,
            cpu.registers == old(cpu).registers,
            cpu.lsq == old(cpu).lsq,
            cpu.fetch_unit.instructions == old(cpu).fetch_unit.instructions,
            cpu.fetch_unit.reset == old(cpu).fetch_unit.reset,
            cpu.decode_unit.reset == old(cpu).decode_unit.reset,
            q0 == old(cpu).decode_unit.instruction_q@,
            cpu.decode_unit.instruction_q@.len() == q0.len() + n,
            cpu.decode_unit.instruction_q@.subrange(0, q0.len() as int) == q0,
            n == 0 ==> cpu.fetch_unit.pc == old(cpu).fetch_unit.pc,
            old(cpu).fetch_unit.current() == EncodedInstruction::Halt ==> n == 0,
            cpu.branch_predictor.bht@ == old(cpu).branch_predictor.bht@,
            cpu.branch_predictor.pred_type == old(cpu).branch_predictor.pred_type,
            cpu.branch_predictor.total_predictions == old(cpu).branch_predictor.total_predictions,
            cpu.branch_predictor.total_correct == old(cpu).branch_predictor.total_correct,
            !old(cpu).fetch_unit.reset,
            ({
                let q1 = cpu.decode_unit.instruction_q@;
                let fu = old(cpu).fetch_unit;
                let bp = old(cpu).branch_predictor;
                let program = fu.instructions@;
                let at = |p: usize|
                    if p < program.len() {
                        program[p as int]
                    } else {
                        EncodedInstruction::Halt
                    };
                &&& forall|i: int|
                    q0.len() <= i < q1.len() ==> {
                        &&& (#[trigger] q1[i]).1 == at(q1[i].0)
                        &&& q1[i].1 != EncodedInstruction::Halt
                        &&& q1[i].0 < program.len()
                    }
                &&& n > 0 ==> q1[q0.len() as int].0 == fu.pc
                &&& forall|i: int|
                    q0.len() < i < q1.len() ==> (#[trigger] q1[i]).0 == bp.prediction(
                        q1[i - 1].1,
                        q1[i - 1].0,
                    ).0
                &&& n > 0 ==> cpu.fetch_unit.pc == bp.prediction(
                    q1[q1.len() - 1].1,
                    q1[q1.len() - 1].0,
                ).0
            }),
        ensures
            n < FETCH_WIDTH ==> cpu.fetch_unit.current() == EncodedInstruction::Halt,
        decreases FETCH_WIDTH - n,
    {
        let inst = cpu.fetch_unit.get_instruction();
        if let EncodedInstruction::Halt = inst {
            break;
        }
        let pc = cpu.fetch_unit.pc;
        assert(pc < cpu.fetch_unit.instructions.len());
        let ghost before = cpu.decode_unit.instruction_q@;
        cpu.decode_unit.add_instruction(inst, pc);
        proof {
            assert(cpu.decode_unit.instruction_q@.subrange(0, q0.len() as int) =~= before.subrange(
                0,
                q0.len() as int,
            ));
        }
        cpu.fetch_unit.pc = cpu.branch_predictor.predict(inst, pc);
        n = n + 1;
    }
    proof {
        if n == 0 {
            assert(cpu.decode_unit.instruction_q@ =~= q0);
        }
    }
}

/// The first station at index `j` or later that is busy, waits for no tag,
/// and holds an operation that a unit of kind `fu_type` performs.
pub open spec fn first_candidate(s: Seq<ReservationStation>, fu_type: FUType, j: int) -> Option<int>
    decreases s.len() - j,
{
    if j < 0 || j >= s.len() {
        None
    } else if s[j].busy && !(s[j].o1 is Rob) && !(s[j].o2 is Rob) && accepts(fu_type, s[j].operation) {
        Some(j)
    } else {
        first_candidate(s, fu_type, j + 1)
    }
}

/// Units `u` and stations `s` after unit `f` had its turn: when it can take
/// an operation and some station is a candidate for it, the first such
/// station is handed to it and freed.
pub open spec fn dispatch_unit(u: Seq<FunctionalUnit>, s: Seq<ReservationStation>, f: int) -> (
    Seq<FunctionalUnit>,
    Seq<ReservationStation>,
) {
    let c = first_candidate(s, u[f].fu_type, 0);
    if u[f].can_take() && c is Some {
        let st = s[c->0];
        (
            u.update(
                f,
                u[f].accept(
                    operand_value(st.o1),
                    operand_value(st.o2),
                    st.operation,
                    st.rob_entry,
                    st.address,
                ),
            ),
            s.update(c->0, ReservationStation::spec_free()),
        )
    } else {
        (u, s)
    }
}

/// Units and stations after units `0 .. f` had their turns, in order.
pub open spec fn dispatch_units(u: Seq<FunctionalUnit>, s: Seq<ReservationStation>, f: nat) -> (
    Seq<FunctionalUnit>,
    Seq<ReservationStation>,
)
    decreases f,
{
    if f == 0 {
        (u, s)
    } else {
        let p = dispatch_units(u, s, (f - 1) as nat);
        dispatch_unit(p.0, p.1, f - 1)
    }
}

/// `new` is `old` after every functional unit, in order, was offered the
/// first ready station it can perform; nothing else changes.
pub open spec fn dispatched(old: CPU, new: CPU) -> bool {
    &&& (new.exec_unit.func_units@, new.exec_unit.rs_sts@) == dispatch_units(
        old.exec_unit.func_units@,
        old.exec_unit.rs_sts@,
        old.exec_unit.func_units@.len(),
    )
    &&& new.rob == old.rob
    &&& new.registers == old.registers
    &&& new.lsq == old.lsq
    &&& new.fetch_unit == old.fetch_unit
    &&& new.decode_unit == old.decode_unit
    &&& new.branch_predictor == old.branch_predictor
    &&& new.exec_unit.mem_unit == old.exec_unit.mem_unit
}

/// Sends ready reservation stations to functional units: for each unit in
/// turn, the first busy station (in index order) whose operands are known
/// and whose operation the unit takes is dispatched to it and freed, when
/// the unit can take an operation.
pub fn dispatch(cpu: &mut CPU)
    requires
        old(cpu).wf(),
    ensures
        final(cpu).wf(),
        dispatched(*old(cpu), *final(cpu)),
{
    let mut f: usize = 0;
    while f < cpu.exec_unit.func_units.len()
        invariant
            cpu.wf(),
            f <= cpu.exec_unit.func_units.len(),
            cpu.exec_unit.func_units.len() == old(cpu).exec_unit.func_units.len(),
            (cpu.exec_unit.func_units@, cpu.exec_unit.rs_sts@) == dispatch_units(
                old(cpu).exec_unit.func_units@,
                old(cpu).exec_unit.rs_sts@,
                f as nat,
            ),
            cpu.rob == old(cpu).rob,
            cpu.registers == old(cpu).registers,
            cpu.lsq == old(cpu).lsq,
            cpu.fetch_unit == old(cpu).fetch_unit,
            cpu.decode_unit == old(cpu).decode_unit,
            cpu.branch_predictor == old(cpu).branch_predictor,
            cpu.exec_unit.mem_unit == old(cpu).exec_unit.mem_unit,
        decreases cpu.exec_unit.func_units.len() - f,
    {
        let ghost u0 = cpu.exec_unit.func_units@;
        let ghost s0 = cpu.exec_unit.rs_sts@;
        let ghost t = u0[f as int].fu_type;
        let mut rs: usize = 0;
        while rs < NUM_RS
            invariant_except_break
                cpu.exec_unit.func_units@ == u0,
                cpu.exec_unit.rs_sts@ == s0,
            invariant
                cpu.wf(),
                f < cpu.exec_unit.func_units.len(),
                rs <= NUM_RS,
                s0.len() == NUM_RS,
                u0.len() == cpu.exec_unit.func_units.len(),
                t == u0[f as int].fu_type,
                u0[f as int].can_take() ==> first_candidate(s0, t, 0) == first_candidate(
                    s0,
                    t,
                    rs as int,
                ),
                cpu.rob == old(cpu).rob,
                cpu.registers == old(cpu).registers,
                cpu.lsq == old(cpu).lsq,
                cpu.fetch_unit == old(cpu).fetch_unit,
                cpu.decode_unit == old(cpu).decode_unit,
                cpu.branch_predictor == old(cpu).branch_predictor,
                cpu.exec_unit.mem_unit == old(cpu).exec_unit.mem_unit,
            ensures
                (cpu.exec_unit.func_units@, cpu.exec_unit.rs_sts@) == dispatch_unit(u0, s0, f as int),
                cpu.wf(),
                cpu.exec_unit.func_units.len() == u0.len(),
                cpu.rob == old(cpu).rob,
                cpu.registers == old(cpu).registers,
                cpu.lsq == old(cpu).lsq,
                cpu.fetch_unit == old(cpu).fetch_unit,
                cpu.decode_unit == old(cpu).decode_unit,
                cpu.branch_predictor == old(cpu).branch_predictor,
                cpu.exec_unit.mem_unit == old(cpu).exec_unit.mem_unit,
            decreases NUM_RS - rs,
        {
            let mut taken = false;
            if cpu.exec_unit.rs_sts[rs].busy {
                if let Some((x, y)) = cpu.exec_unit.rs_sts[rs].get_operands() {
                    let operation = cpu.exec_unit.rs_sts[rs].operation;
                    let rob_entry = cpu.exec_unit.rs_sts[rs].rob_entry;
                    let address = cpu.exec_unit.rs_sts[rs].address;
                    if cpu.exec_unit.func_units[f].dispatch(x, y, operation, rob_entry, address) {
                        cpu.exec_unit.rs_sts[rs].free();
                        proof {
                            assert(first_candidate(s0, t, rs as int) == Some(rs as int));
                            assert(cpu.exec_unit.func_units@ =~= dispatch_unit(u0, s0, f as int).0);
                            assert(cpu.exec_unit.rs_sts@ =~= dispatch_unit(u0, s0, f as int).1);
                        }
                        taken = true;
                    }
                }
            }
            if taken {
                break;
            }
            proof {
                if u0[f as int].can_take() {
                    assert(first_candidate(s0, t, rs as int) == first_candidate(s0, t, rs + 1));
                }
            }
            rs = rs + 1;
        }
        proof {
            if rs == NUM_RS {
                assert(first_candidate(s0, t, NUM_RS as int) is None);
            }
        }
        f = f + 1;
    }
}

/// `new` is `old` after the head of the decode queue, fetched at `pc`,
/// was issued and removed: as the matching issue function of `CPU`
/// describes (`station_issue` or `memory_issue`), or, for a `Noop`, with
/// nothing else changed. A `Halt` is never issued.
pub open spec fn issue_step(old: CPU, new: CPU) -> bool {
    let q = old.decode_unit.instruction_q@;
    &&& q.len() > 0
    &&& new.decode_unit.instruction_q@ == q.drop_first()
    &&& {
        let (pc, inst) = q[0];
        match inst {
            EncodedInstruction::Add(d, s, t) => station_issue(old, new, Destination::Register(d), old.operand_for(s), old.operand_for(t), Op::Add, None),
            EncodedInstruction::And(d, s, t) => station_issue(old, new, Destination::Register(d), old.operand_for(s), old.operand_for(t), Op::And, None),
            EncodedInstruction::Div(d, s, t) => station_issue(old, new, Destination::Register(d), old.operand_for(s), old.operand_for(t), Op::Div, None),
            EncodedInstruction::Mod(d, s, t) => station_issue(old, new, Destination::Register(d), old.operand_for(s), old.operand_for(t), Op::Mod, None),
            EncodedInstruction::Mult(d, s, t) => station_issue(old, new, Destination::Register(d), old.operand_for(s), old.operand_for(t), Op::Mult, None),
            EncodedInstruction::Or(d, s, t) => station_issue(old, new, Destination::Register(d), old.operand_for(s), old.operand_for(t), Op::Or, None),
            EncodedInstruction::Sub(d, s, t) => station_issue(old, new, Destination::Register(d), old.operand_for(s), old.operand_for(t), Op::Sub, None),
            EncodedInstruction::Xor(d, s, t) => station_issue(old, new, Destination::Register(d), old.operand_for(s), old.operand_for(t), Op::Xor, None),
            EncodedInstruction::Addi(d, s, imm) => station_issue(old, new, Destination::Register(d), old.operand_for(s), Operand::Value(imm), Op::Add, None),
            EncodedInstruction::Andi(d, s, imm) => station_issue(old, new, Destination::Register(d), old.operand_for(s), Operand::Value(imm), Op::And, None),
            EncodedInstruction::Subi(d, s, imm) => station_issue(old, new, Destination::Register(d), old.operand_for(s), Operand::Value(imm), Op::Sub, None),
            EncodedInstruction::Sl(d, s, imm) => station_issue(old, new, Destination::Register(d), old.operand_for(s), Operand::Value(imm), Op::Sl, None),
            EncodedInstruction::Sr(d, s, imm) => station_issue(old, new, Destination::Register(d), old.operand_for(s), Operand::Value(imm), Op::Sr, None),
            EncodedInstruction::Ldc(d, imm) => station_issue(old, new, Destination::Register(d), Operand::Value(imm), Operand::Empty, Op::Mov, None),
            EncodedInstruction::Mov(d, s) => station_issue(old, new, Destination::Register(d), old.operand_for(s), Operand::Empty, Op::Mov, None),
            EncodedInstruction::Beq(s, t, x) => station_issue(old, new, Destination::Branch(pc), old.operand_for(s), old.operand_for(t), Op::Beq, Some(x)),
            EncodedInstruction::Blt(s, t, x) => station_issue(old, new, Destination::Branch(pc), old.operand_for(s), old.operand_for(t), Op::Blt, Some(x)),
            EncodedInstruction::Bgt(s, t, x) => station_issue(old, new, Destination::Branch(pc), old.operand_for(s), old.operand_for(t), Op::Bgt, Some(x)),
            EncodedInstruction::Beqz(s, x) => station_issue(old, new, Destination::Branch(pc), old.operand_for(s), Operand::Empty, Op::Beqz, Some(x)),
            EncodedInstruction::J(x) => station_issue(old, new, Destination::Branch(pc), Operand::Empty, Operand::Empty, Op::J, Some(x)),
            EncodedInstruction::Lw(a, d) => memory_issue(old, new, Destination::Register(d), None, LSQEntry::spec_new(LSQOp::L, pc, 0, old.operand_for(a), Operand::Empty)),
            EncodedInstruction::Sw(a, v) => memory_issue(old, new, Destination::Store, Some(ExecResult::Store), LSQEntry::spec_new(LSQOp::S, pc, 0, old.operand_for(a), old.operand_for(v))),
            EncodedInstruction::Noop => {
            &&& new.exec_unit == old.exec_unit
            &&& new.rob == old.rob
            &&& new.registers == old.registers
            &&& new.lsq == old.lsq
            &&& new.fetch_unit == old.fetch_unit
            &&& new.branch_predictor == old.branch_predictor
            &&& new.decode_unit.reset == old.decode_unit.reset
        },
            EncodedInstruction::Halt => false,
        }
    }
}

/// Step `j` of a decode trace.
pub open spec fn decode_step(trace: Seq<CPU>, j: int) -> bool {
    issue_step(trace[j], trace[j + 1])
}

/// `trace` runs from `old` to `new` through at most `DECODE_WIDTH` issue
/// steps, and ends early only at an empty queue or a head that cannot issue.
pub open spec fn decode_trace(old: CPU, new: CPU, trace: Seq<CPU>) -> bool {
    let q = new.decode_unit.instruction_q@;
    &&& 1 <= trace.len() <= DECODE_WIDTH + 1
    &&& trace[0] == old
    &&& trace[trace.len() - 1] == new
    &&& forall|j: int| 0 <= j < trace.len() - 1 ==> #[trigger] decode_step(trace, j)
    &&& trace.len() - 1 < DECODE_WIDTH ==> q.len() == 0 || blocked(new, q[0].1)
}

/// `new` is `old` after the decoding part of the decode stage: after a
/// misprediction the queue is cleared and nothing else changes; otherwise
/// instructions issue from the head as `decode_trace` says.
pub open spec fn decoded(old: CPU, new: CPU) -> bool {
    &&& !new.decode_unit.reset
    &&& if old.decode_unit.reset {
        &&& new.decode_unit.instruction_q@.len() == 0
        &&& new.exec_unit == old.exec_unit
        &&& new.rob == old.rob
        &&& new.registers == old.registers
        &&& new.lsq == old.lsq
        &&& new.fetch_unit == old.fetch_unit
        &&& new.branch_predictor == old.branch_predictor
    } else {
        exists|trace: Seq<CPU>| #[trigger] decode_trace(old, new, trace)
    }
}

/// Decode never issues a `Halt`, and a full reorder buffer blocks it: when
/// the head of the queue is a `Halt`, or is an instruction other than a
/// `Noop` while the reorder buffer is full, decoding changes nothing.
pub proof fn lemma_decode_blocked(old: CPU, new: CPU)
    requires
        decoded(old, new),
        !old.decode_unit.reset,
        old.decode_unit.instruction_q@.len() > 0,
        old.decode_unit.instruction_q@[0].1 is Halt || (!(old.decode_unit.instruction_q@[0].1 is Noop)
            && old.rob.is_full()),
    ensures
        new == old,
{
    let trace = choose|trace: Seq<CPU>| #[trigger] decode_trace(old, new, trace);
    if trace.len() > 1 {
        assert(decode_step(trace, 0));
        assert(issue_step(old, trace[1]));
        assert(trace[1].decode_unit.instruction_q@.len() < old.decode_unit.instruction_q@.len());
    }
}

/// `new` is `old` after the memory unit, when idle, took the head of the
/// load/store queue if it can be performed, starting its `MEM_LATENCY`
/// count; otherwise nothing changes.
pub open spec fn memory_started(old: CPU, new: CPU) -> bool {
    let m = old.exec_unit.mem_unit;
    let q = old.lsq.lsq@;
    &&& if m.idle() && q.len() > 0 && executable(q[0]) {
        &&& new.lsq.lsq@ == q.drop_first()
        &&& new.exec_unit.mem_unit == (MemoryUnit {
            instruction: q[0],
            cycles: MEM_LATENCY,
            result: None,
        })
    } else {
        &&& new.lsq.lsq@ == q
        &&& new.exec_unit.mem_unit == m
    }
    &&& new.exec_unit.func_units == old.exec_unit.func_units
    &&& new.exec_unit.rs_sts == old.exec_unit.rs_sts
    &&& new.rob == old.rob
    &&& new.registers == old.registers
    &&& new.fetch_unit == old.fetch_unit
    &&& new.decode_unit == old.decode_unit
    &&& new.branch_predictor == old.branch_predictor
}

/// The decode stage passes through `a` (decoding) and `b` (dispatch) to
/// `new` (memory start).
pub open spec fn decode_through(old: CPU, a: CPU, b: CPU, new: CPU) -> bool {
    decoded(old, a) && dispatched(a, b) && memory_started(b, new)
}

/// Whether `inst` issues to a reservation station.
pub open spec fn needs_station(inst: EncodedInstruction) -> bool {
    !(inst is Noop || inst is Halt || inst is Lw || inst is Sw)
}

/// `inst` cannot issue from `cpu`'s state: it is a `Halt`, which never
/// issues, or it needs a reorder-buffer slot and the buffer is full, or it
/// needs a reservation station and none is free.
pub open spec fn blocked(cpu: CPU, inst: EncodedInstruction) -> bool {
    ||| inst is Halt
    ||| !(inst is Noop) && cpu.rob.is_full()
    ||| needs_station(inst) && !cpu.exec_unit.has_free_rs()
}

/// Decodes and issues up to `DECODE_WIDTH` instructions from the head of
/// the decode queue, in order, each as `CPU`'s issue functions describe. It
/// stops early only at an empty queue or at a head that cannot issue (see
/// `blocked`); a `Halt` stays queued and is never issued. After a
/// misprediction the queue is cleared instead.
pub fn decode_instructions(cpu: &mut CPU)
    requires
        old(cpu).wf(),
    ensures
        final(cpu).wf(),
        final(cpu).fetch_unit == old(cpu).fetch_unit,
        final(cpu).branch_predictor == old(cpu).branch_predictor,
        final(cpu).exec_unit.func_units == old(cpu).exec_unit.func_units,
        final(cpu).exec_unit.mem_unit == old(cpu).exec_unit.mem_unit,
        final(cpu).registers.gprs == old(cpu).registers.gprs,
        final(cpu).rob.commit == old(cpu).rob.commit,
        final(cpu).rob.instructions_committed == old(cpu).rob.instructions_committed,
        !final(cpu).decode_unit.reset,
        old(cpu).decode_unit.reset ==> final(cpu).decode_unit.instruction_q@.len() == 0
            && final(cpu).rob == old(cpu).rob && final(cpu).registers == old(cpu).registers
            && final(cpu).exec_unit == old(cpu).exec_unit && final(cpu).lsq == old(cpu).lsq,
        !old(cpu).decode_unit.reset ==> exists|n: int|
            {
                &&& 0 <= n <= DECODE_WIDTH
                &&& n <= old(cpu).decode_unit.instruction_q@.len()
                &&& final(cpu).decode_unit.instruction_q@ == #[trigger] old(
                    cpu).decode_unit.instruction_q@.skip(n)
                &&& n < DECODE_WIDTH && n < old(cpu).decode_unit.instruction_q@.len() ==> blocked(
                    *final(cpu),
                    old(cpu).decode_unit.instruction_q@[n].1,
                )
            },
        old(cpu).rob.is_full() ==> final(cpu).rob.issue == old(cpu).rob.issue,
        !old(cpu).decode_unit.reset && old(cpu).decode_unit.instruction_q@.len() > 0 && old(
            cpu).decode_unit.instruction_q@[0].1 == EncodedInstruction::Halt ==> final(
            cpu).decode_unit.instruction_q@ == old(cpu).decode_unit.instruction_q@,
        decoded(*old(cpu), *final(cpu)),
{
    if cpu.decode_unit.reset {
        cpu.decode_unit.clear_instructions();
        cpu.decode_unit.reset = false;
    } else {
        let ghost q0 = cpu.decode_unit.instruction_q@;
        let ghost mut trace: Seq<CPU> = seq![*cpu];
        let mut n: usize = 0;
        while n < DECODE_WIDTH
            invariant
                cpu.wf(),
                n <= DECODE_WIDTH,
                trace.len() == n + 1,
                trace[0] == *old(cpu),
                trace[n as int] == *cpu,
                forall|j: int| 0 <= j < n ==> #[trigger] decode_step(trace, j),
                !cpu.decode_unit.reset,
                q0 == old(cpu).decode_unit.instruction_q@,
                n <= q0.len(),
                cpu.decode_unit.instruction_q@ == q0.skip(n as int),
                cpu.fetch_unit == old(cpu).fetch_unit,
                cpu.branch_predictor == old(cpu).branch_predictor,
                cpu.registers.gprs == old(cpu).registers.gprs,
                cpu.rob.commit == old(cpu).rob.commit,
                cpu.rob.instructions_committed == old(cpu).rob.instructions_committed,
                q0.len() > 0 && q0[0].1 == EncodedInstruction::Halt ==> n == 0,
                old(cpu).rob.is_full() ==> cpu.rob.issue == old(cpu).rob.issue,
                cpu.exec_unit.func_units == old(cpu).exec_unit.func_units,
                cpu.exec_unit.mem_unit == old(cpu).exec_unit.mem_unit,
            ensures
                n < DECODE_WIDTH && n < q0.len() ==> blocked(*cpu, q0[n as int].1),
            decreases DECODE_WIDTH - n,
        {
            let head = cpu.decode_unit.get_next_instruction();
            let (pc, instruction) = match head {
                Some(h) => h,
                None => {
                    break;
                },
            };
            proof {
                assert(q0.skip(n as int)[0] == q0[n as int]);
            }
            let len_before = cpu.decode_unit.instruction_q.len();
            let ghost before = *cpu;
            match instruction {
                EncodedInstruction::Noop => {
                    cpu.decode_unit.pop_instruction();
                },
                EncodedInstruction::Halt => {
                    break;
                },
                EncodedInstruction::Addi(d, s, imm) => cpu.issue_imm(d, s, imm, Op::Add),
                EncodedInstruction::Add(d, s, t) => cpu.issue(d, s, t, Op::Add),
                EncodedInstruction::And(d, s, t) => cpu.issue(d, s, t, Op::And),
                EncodedInstruction::Andi(d, s, imm) => cpu.issue_imm(d, s, imm, Op::And),
                EncodedInstruction::Beq(s, t, inst) => cpu.issue_branch2(s, t, inst, Op::Beq, pc),
                EncodedInstruction::Beqz(s, inst) => cpu.issue_branch1(s, inst, Op::Beqz, pc),
                EncodedInstruction::Blt(s, t, inst) => cpu.issue_branch2(s, t, inst, Op::Blt, pc),
                EncodedInstruction::Bgt(s, t, inst) => cpu.issue_branch2(s, t, inst, Op::Bgt, pc),
                EncodedInstruction::Div(d, s, t) => cpu.issue(d, s, t, Op::Div),
                EncodedInstruction::J(inst) => cpu.issue_branch0(inst, Op::J, pc),
                EncodedInstruction::Ldc(d, imm) => cpu.issue1_imm(d, imm, Op::Mov),
                EncodedInstruction::Lw(addr, dest) => cpu.issue_load(addr, dest, pc),
                EncodedInstruction::Mod(d, s, t) => cpu.issue(d, s, t, Op::Mod),
                EncodedInstruction::Mov(d, s) => cpu.issue1(d, s, Op::Mov),
                EncodedInstruction::Mult(d, s, t) => cpu.issue(d, s, t, Op::Mult),
                EncodedInstruction::Or(d, s, t) => cpu.issue(d, s, t, Op::Or),
                EncodedInstruction::Sl(d, s, imm) => cpu.issue_imm(d, s, imm, Op::Sl),
                EncodedInstruction::Sr(d, s, imm) => cpu.issue_imm(d, s, imm, Op::Sr),
                EncodedInstruction::Sub(d, s, t) => cpu.issue(d, s, t, Op::Sub),
                EncodedInstruction::Subi(d, s, imm) => cpu.issue_imm(d, s, imm, Op::Sub),
                EncodedInstruction::Sw(addr, val) => cpu.issue_store(addr, val, pc),
                EncodedInstruction::Xor(d, s, t) => cpu.issue(d, s, t, Op::Xor),
            }
            if cpu.decode_unit.instruction_q.len() == len_before {
                // No station or no reorder-buffer slot: retry next cycle.
                proof {
                    assert(*cpu == before);
                }
                break;
            }
            proof {
                assert(cpu.decode_unit.instruction_q@ =~= q0.skip(n + 1));
                assert(issue_step(before, *cpu));
                let t = trace.push(*cpu);
                assert forall|j: int| 0 <= j < n + 1 implies #[trigger] decode_step(t, j) by {
                    if j < n {
                        assert(decode_step(trace, j));
                    }
                }
                trace = t;
            }
            n = n + 1;
        }
        proof {
            assert(q0.skip(0) =~= q0);
            if n < q0.len() {
                assert(cpu.decode_unit.instruction_q@[0] == q0[n as int]);
            }
            assert(decode_trace(*old(cpu), *cpu, trace));
        }
    }
}

/// The decode stage: `decode_instructions`, then `dispatch`, then the
/// memory unit, when idle, takes the head of the load/store queue if it can
/// be performed.
pub fn decode(cpu: &mut CPU)
    requires
        old(cpu).wf(),
    ensures
        final(cpu).wf(),
        final(cpu).fetch_unit == old(cpu).fetch_unit,
        final(cpu).branch_predictor == old(cpu).branch_predictor,
        final(cpu).registers.gprs == old(cpu).registers.gprs,
        final(cpu).rob.commit == old(cpu).rob.commit,
        final(cpu).rob.instructions_committed == old(cpu).rob.instructions_committed,
        !final(cpu).decode_unit.reset,
        old(cpu).decode_unit.reset ==> final(cpu).decode_unit.instruction_q@.len() == 0
            && final(cpu).rob.issue == old(cpu).rob.issue,
        !old(cpu).decode_unit.reset ==> exists|n: int|
            0 <= n <= DECODE_WIDTH && final(cpu).decode_unit.instruction_q@ == old(
                cpu).decode_unit.instruction_q@.skip(n),
        old(cpu).decode_unit.instruction_q@.len() > 0 && old(cpu).decode_unit.instruction_q@[0].1
            == EncodedInstruction::Halt ==> final(cpu).decode_unit.instruction_q@.len() == 0
            || final(cpu).decode_unit.instruction_q@ == old(cpu).decode_unit.instruction_q@,
        old(cpu).rob.is_full() ==> final(cpu).rob.issue == old(cpu).rob.issue,
        exists|a: CPU, b: CPU| #[trigger] decode_through(*old(cpu), a, b, *final(cpu)),
{
    decode_instructions(cpu);
    let ghost a = *cpu;
    dispatch(cpu);
    let ghost b = *cpu;
    if cpu.exec_unit.mem_unit.finished() {
        if let Some(i) = cpu.lsq.get_next_instruction() {
            cpu.exec_unit.mem_unit.dispatch(i);
        }
    }
    proof {
        assert(memory_started(b, *cpu));
        assert(decode_through(*old(cpu), a, b, *cpu));
    }
}

/// `new` and memory `m1` are `old` and memory `m0` after one execute stage:
/// every functional unit and the memory unit advanced by one cycle, nothing
/// else changed.
pub open spec fn executed(old: CPU, new: CPU, m0: Seq<u32>, m1: Seq<u32>) -> bool {
    &&& new.exec_unit.func_units@.len() == old.exec_unit.func_units@.len()
    &&& forall|i: int|
        0 <= i < old.exec_unit.func_units@.len() ==> #[trigger] new.exec_unit.func_units@[i]
            == old.exec_unit.func_units@[i].after_cycle()
    &&& (new.exec_unit.mem_unit, m1) == old.exec_unit.mem_unit.after_cycle(m0)
    &&& new.exec_unit.rs_sts == old.exec_unit.rs_sts
    &&& new.rob == old.rob
    &&& new.registers == old.registers
    &&& new.lsq == old.lsq
    &&& new.fetch_unit == old.fetch_unit
    &&& new.decode_unit == old.decode_unit
    &&& new.branch_predictor == old.branch_predictor
}

/// Advances every functional unit and the memory unit by one cycle. Memory
/// changes only through a store that has retired.
pub fn execute(cpu: &mut CPU, memory: &mut Vec<u32>)
    requires
        old(cpu).wf(),
    ensures
        final(cpu).wf(),
        final(cpu).rob == old(cpu).rob,
        final(cpu).registers == old(cpu).registers,
        final(cpu).lsq == old(cpu).lsq,
        final(cpu).fetch_unit == old(cpu).fetch_unit,
        final(cpu).decode_unit == old(cpu).decode_unit,
        final(cpu).branch_predictor == old(cpu).branch_predictor,
        final(cpu).exec_unit.rs_sts == old(cpu).exec_unit.rs_sts,
        final(memory)@ != old(memory)@ ==> is_committed_store(old(cpu).exec_unit.mem_unit.instruction),
        executed(*old(cpu), *final(cpu), old(memory)@, final(memory)@),
{
    let mut f: usize = 0;
    while f < cpu.exec_unit.func_units.len()
        invariant
            cpu.wf(),
            f <= cpu.exec_unit.func_units.len(),
            cpu.exec_unit.func_units.len() == old(cpu).exec_unit.func_units.len(),
            cpu.rob == old(cpu).rob,
            cpu.registers == old(cpu).registers,
            cpu.lsq == old(cpu).lsq,
            cpu.fetch_unit == old(cpu).fetch_unit,
            cpu.decode_unit == old(cpu).decode_unit,
            cpu.branch_predictor == old(cpu).branch_predictor,
            cpu.exec_unit.rs_sts == old(cpu).exec_unit.rs_sts,
            cpu.exec_unit.mem_unit == old(cpu).exec_unit.mem_unit,
            forall|i: int|
                0 <= i < f ==> #[trigger] cpu.exec_unit.func_units@[i] == old(
                    cpu).exec_unit.func_units@[i].after_cycle(),
            forall|i: int|
                f <= i < cpu.exec_unit.func_units.len() ==> #[trigger] cpu.exec_unit.func_units@[i]
                    == old(cpu).exec_unit.func_units@[i],
        decreases cpu.exec_unit.func_units.len() - f,
    {
        cpu.exec_unit.func_units[f].cycle();
        f = f + 1;
    }
    cpu.exec_unit.mem_unit.cycle(memory);
}

/// Hands a value `x` produced for slot `rob_entry` to every reservation
/// station and load/store-queue entry that waits for it.
pub fn broadcast(cpu: &mut CPU, x: u32, rob_entry: usize)
    requires
        old(cpu).wf(),
    ensures
        final(cpu).wf(),
        final(cpu).rob == old(cpu).rob,
        final(cpu).registers == old(cpu).registers,
        final(cpu).fetch_unit == old(cpu).fetch_unit,
        final(cpu).decode_unit == old(cpu).decode_unit,
        final(cpu).branch_predictor == old(cpu).branch_predictor,
        final(cpu).exec_unit.func_units == old(cpu).exec_unit.func_units,
        final(cpu).exec_unit.mem_unit == old(cpu).exec_unit.mem_unit,
        final(cpu).exec_unit.rs_sts.len() == old(cpu).exec_unit.rs_sts.len(),
        forall|i: int|
            0 <= i < NUM_RS ==> {
                let (a, b) = (#[trigger] final(cpu).exec_unit.rs_sts@[i], old(cpu).exec_unit.rs_sts@[i]);
                &&& a.o1 == resolved(b.o1, x, rob_entry)
                &&& a.o2 == resolved(b.o2, x, rob_entry)
                &&& a.busy == b.busy
                &&& a.operation == b.operation
                &&& a.rob_entry == b.rob_entry
                &&& a.address == b.address
            },
        final(cpu).lsq.lsq@ == old(cpu).lsq.lsq@.map_values(
            |e: LSQEntry| entry_resolved(e, x, rob_entry),
        ),
        final(cpu).exec_unit.rs_sts@ == old(cpu).exec_unit.rs_sts@.map_values(
            |st: ReservationStation| st.after_broadcast(x, rob_entry),
        ),
{
    let mut dependent: usize = 0;
    while dependent < NUM_RS
        invariant
            cpu.wf(),
            dependent <= NUM_RS,
            cpu.rob == old(cpu).rob,
            cpu.registers == old(cpu).registers,
            cpu.lsq == old(cpu).lsq,
            cpu.fetch_unit == old(cpu).fetch_unit,
            cpu.decode_unit == old(cpu).decode_unit,
            cpu.branch_predictor == old(cpu).branch_predictor,
            cpu.exec_unit.func_units == old(cpu).exec_unit.func_units,
            cpu.exec_unit.mem_unit == old(cpu).exec_unit.mem_unit,
            cpu.exec_unit.rs_sts.len() == old(cpu).exec_unit.rs_sts.len(),
            forall|i: int|
                dependent <= i < NUM_RS ==> #[trigger] cpu.exec_unit.rs_sts@[i]
                    == old(cpu).exec_unit.rs_sts@[i],
            forall|i: int|
                0 <= i < dependent ==> #[trigger] cpu.exec_unit.rs_sts@[i] == old(
                    cpu).exec_unit.rs_sts@[i].after_broadcast(x, rob_entry),
            forall|i: int|
                0 <= i < dependent ==> {
                    let (a, b) = (#[trigger] cpu.exec_unit.rs_sts@[i], old(cpu).exec_unit.rs_sts@[i]);
                    &&& a.o1 == resolved(b.o1, x, rob_entry)
                    &&& a.o2 == resolved(b.o2, x, rob_entry)
                    &&& a.busy == b.busy
                    &&& a.operation == b.operation
                    &&& a.rob_entry == b.rob_entry
                    &&& a.address == b.address
                },
        decreases NUM_RS - dependent,
    {
        cpu.exec_unit.rs_sts[dependent].resolve_dependency(x, rob_entry);
        dependent = dependent + 1;
    }
    cpu.lsq.resolve_dependency(x, rob_entry);
    proof {
        assert(cpu.exec_unit.rs_sts@ =~= old(cpu).exec_unit.rs_sts@.map_values(
            |st: ReservationStation| st.after_broadcast(x, rob_entry),
        ));
    }
}

/// `new` is `old` after the result `res` for slot `k` went out on the
/// bus: a value reaches every station and queued operand that waits for
/// it, and the result is recorded in the reorder buffer (when it fits the
/// slot). Nothing else changes but the units, which the caller describes.
pub open spec fn published(old: CPU, new: CPU, k: usize, res: ExecResult) -> bool {
    &&& new.rob.buffer@ == with_result(old.rob.buffer@, k as int, res)
    &&& new.rob.commit == old.rob.commit
    &&& new.rob.issue == old.rob.issue
    &&& new.rob.instructions_committed == old.rob.instructions_committed
    &&& match res {
        ExecResult::Value(x) => {
            &&& new.exec_unit.rs_sts@ == old.exec_unit.rs_sts@.map_values(
                |st: ReservationStation| st.after_broadcast(x, k),
            )
            &&& new.lsq.lsq@ == old.lsq.lsq@.map_values(|e: LSQEntry| entry_resolved(e, x, k))
        },
        _ => new.exec_unit.rs_sts@ == old.exec_unit.rs_sts@ && new.lsq.lsq@ == old.lsq.lsq@,
    }
    &&& new.registers == old.registers
    &&& new.fetch_unit == old.fetch_unit
    &&& new.decode_unit == old.decode_unit
    &&& new.branch_predictor == old.branch_predictor
}

/// `new` is `old` after writeback took the result of functional unit `i`,
/// if it held one, and published it.
pub open spec fn unit_written_back(old: CPU, new: CPU, i: int) -> bool {
    let u = old.exec_unit.func_units@[i];
    &&& new.exec_unit.func_units@ == old.exec_unit.func_units@.update(i, u.harvested())
    &&& new.exec_unit.mem_unit == old.exec_unit.mem_unit
    &&& match u.result {
        Some((k, res)) => published(old, new, k, res),
        None => {
            &&& new.rob == old.rob
            &&& new.exec_unit.rs_sts@ == old.exec_unit.rs_sts@
            &&& new.lsq.lsq@ == old.lsq.lsq@
            &&& new.registers == old.registers
            &&& new.fetch_unit == old.fetch_unit
            &&& new.decode_unit == old.decode_unit
            &&& new.branch_predictor == old.branch_predictor
        },
    }
}

/// `new` is `old` after writeback took a finished load's value from the
/// memory unit, if it held one, and published it.
pub open spec fn memory_written_back(old: CPU, new: CPU) -> bool {
    let m = old.exec_unit.mem_unit;
    &&& new.exec_unit.func_units@ == old.exec_unit.func_units@
    &&& new.exec_unit.mem_unit == (MemoryUnit { result: None, ..m })
    &&& match m.result {
        Some(v) => published(old, new, m.instruction.rob_entry, ExecResult::Value(v)),
        None => {
            &&& new.rob == old.rob
            &&& new.exec_unit.rs_sts@ == old.exec_unit.rs_sts@
            &&& new.lsq.lsq@ == old.lsq.lsq@
            &&& new.registers == old.registers
            &&& new.fetch_unit == old.fetch_unit
            &&& new.decode_unit == old.decode_unit
            &&& new.branch_predictor == old.branch_predictor
        },
    }
}

/// Step `i` of a writeback trace: unit `i` is written back.
pub open spec fn writeback_step(trace: Seq<CPU>, i: int) -> bool {
    unit_written_back(trace[i], trace[i + 1], i)
}

/// `trace` runs from `old` to `new` through the writeback of each
/// functional unit in turn and then of the memory unit.
pub open spec fn writeback_trace(old: CPU, new: CPU, trace: Seq<CPU>) -> bool {
    let n = old.exec_unit.func_units@.len() as int;
    &&& trace.len() == n + 2
    &&& trace[0] == old
    &&& trace[n + 1] == new
    &&& forall|i: int| 0 <= i < n ==> #[trigger] writeback_step(trace, i)
    &&& memory_written_back(trace[n], trace[n + 1])
}

/// `new` is `old` after a writeback stage.
pub open spec fn written_back(old: CPU, new: CPU) -> bool {
    exists|trace: Seq<CPU>| #[trigger] writeback_trace(old, new, trace)
}

/// Takes every finished result from the functional units and the memory
/// unit, broadcasts values to the stations and the load/store queue that
/// wait for them, and records each result in the reorder buffer. Branch
/// results only reach the reorder buffer.
pub fn writeback(cpu: &mut CPU)
    requires
        old(cpu).wf(),
    ensures
        final(cpu).wf(),
        final(cpu).rob.commit == old(cpu).rob.commit,
        final(cpu).rob.issue == old(cpu).rob.issue,
        final(cpu).registers == old(cpu).registers,
        final(cpu).fetch_unit == old(cpu).fetch_unit,
        final(cpu).decode_unit == old(cpu).decode_unit,
        final(cpu).branch_predictor == old(cpu).branch_predictor,
        forall|i: int|
            0 <= i < final(cpu).exec_unit.func_units.len() ==> (
            #[trigger] final(cpu).exec_unit.func_units@[i]).result is None,
        final(cpu).exec_unit.mem_unit.result is None,
        final(cpu).exec_unit.mem_unit.instruction == old(cpu).exec_unit.mem_unit.instruction,
        written_back(*old(cpu), *final(cpu)),
        forall|k: int|
            0 <= k < ROB_SIZE ==> (#[trigger] final(cpu).rob.buffer@[k]).dest == old(
                cpu).rob.buffer@[k].dest,
        forall|i: int|
            0 <= i < old(cpu).exec_unit.func_units.len() && (#[trigger] old(
                cpu).exec_unit.func_units@[i]).result is Some ==> {
                let (k, res) = old(cpu).exec_unit.func_units@[i].result->0;
                result_fits(old(cpu).rob.buffer@[k as int].dest, res) ==> final(cpu).rob.buffer@[k as int].result
                    is Some
            },
        old(cpu).exec_unit.mem_unit.result is Some ==> {
            let k = old(cpu).exec_unit.mem_unit.instruction.rob_entry;
            old(cpu).rob.buffer@[k as int].dest is Register ==> final(cpu).rob.buffer@[k as int].result
                is Some
        },
{
    let ghost mut trace: Seq<CPU> = seq![*cpu];
    let mut f: usize = 0;
    while f < cpu.exec_unit.func_units.len()
        invariant
            cpu.wf(),
            f <= cpu.exec_unit.func_units.len(),
            cpu.exec_unit.func_units.len() == old(cpu).exec_unit.func_units.len(),
            trace.len() == f + 1,
            trace[0] == *old(cpu),
            trace[f as int] == *cpu,
            forall|i: int| 0 <= i < f ==> #[trigger] writeback_step(trace, i),
            cpu.rob.commit == old(cpu).rob.commit,
            cpu.rob.issue == old(cpu).rob.issue,
            cpu.registers == old(cpu).registers,
            cpu.fetch_unit == old(cpu).fetch_unit,
            cpu.decode_unit == old(cpu).decode_unit,
            cpu.branch_predictor == old(cpu).branch_predictor,
            forall|i: int| 0 <= i < f ==> (#[trigger] cpu.exec_unit.func_units@[i]).result is None,
            old(cpu).wf(),
            forall|i: int|
                f <= i < cpu.exec_unit.func_units.len() ==> #[trigger] cpu.exec_unit.func_units@[i]
                    == old(cpu).exec_unit.func_units@[i],
            cpu.exec_unit.mem_unit == old(cpu).exec_unit.mem_unit,
            forall|k: int|
                0 <= k < ROB_SIZE ==> (#[trigger] cpu.rob.buffer@[k]).dest == old(
                    cpu).rob.buffer@[k].dest,
            forall|i: int|
                0 <= i < f && (#[trigger] old(cpu).exec_unit.func_units@[i]).result is Some ==> {
                    let (k, res) = old(cpu).exec_unit.func_units@[i].result->0;
                    result_fits(old(cpu).rob.buffer@[k as int].dest, res) ==> cpu.rob.buffer@[k as int].result
                        is Some
                },
        decreases cpu.exec_unit.func_units.len() - f,
    {
        let ghost before = cpu.rob.buffer@;
        let ghost state = *cpu;
        let ghost unit = cpu.exec_unit.func_units@[f as int];
        assert(unit == old(cpu).exec_unit.func_units@[f as int]);
        if let Some((result, rob_entry)) = cpu.exec_unit.func_units[f].get_result() {
            if let ExecResult::Value(x) = result {
                broadcast(cpu, x, rob_entry);
            }
            cpu.rob.insert(rob_entry, result);
        }
        proof {
            assert forall|k: int|
                0 <= k < ROB_SIZE && (#[trigger] before[k]).result is Some implies cpu.rob.buffer@[k].result
                is Some by {}
            assert forall|i: int|
                0 <= i < f + 1 && (#[trigger] old(cpu).exec_unit.func_units@[i]).result is Some implies {
                let (k, res) = old(cpu).exec_unit.func_units@[i].result->0;
                result_fits(old(cpu).rob.buffer@[k as int].dest, res) ==> cpu.rob.buffer@[k as int].result
                    is Some
            } by {
                let (k, res) = old(cpu).exec_unit.func_units@[i].result->0;
                if result_fits(old(cpu).rob.buffer@[k as int].dest, res) {
                    if i < f {
                        assert(before[k as int].result is Some);
                    } else {
                        assert(cpu.rob.buffer@[k as int].result is Some);
                    }
                }
            }
            assert(unit_written_back(state, *cpu, f as int));
            let t = trace.push(*cpu);
            assert forall|i: int| 0 <= i < f + 1 implies #[trigger] writeback_step(t, i) by {
                if i < f {
                    assert(writeback_step(trace, i));
                }
            }
            trace = t;
        }
        f = f + 1;
    }
    let ghost last = *cpu;
    if let Some((rob_entry, result)) = cpu.exec_unit.mem_unit.get_result() {
        if let ExecResult::Value(x) = result {
            broadcast(cpu, x, rob_entry);
        }
        cpu.rob.insert(rob_entry, result);
    }
    proof {
        assert(memory_written_back(last, *cpu));
        let t = trace.push(*cpu);
        assert forall|i: int| 0 <= i < f implies #[trigger] writeback_step(t, i) by {
            assert(writeback_step(trace, i));
        }
        assert(writeback_trace(*old(cpu), *cpu, t));
    }
}

/// The reorder buffer's slots after its head retired: the head's result
/// is cleared.
pub open spec fn retired_buffer(old: CPU) -> Seq<ReorderBufferEntry> {
    let head = old.rob.commit as int;
    old.rob.buffer@.update(head, (ReorderBufferEntry { dest: old.rob.buffer@[head].dest, result: None }))
}

/// `new` is `old` after one retirement attempt, and `go_on` tells whether
/// commit may go on with the next entry. Nothing retires from an empty
/// buffer or a head without its result. A value is written to its register
/// (which is unmapped when this entry is still its latest producer); a
/// retired store is marked in the load/store queue; a branch is resolved
/// as `branch_resolved` says.
pub open spec fn retired(old: CPU, new: CPU, go_on: bool) -> bool {
    ({
            let head = old.rob.commit;
            let entry = old.rob.buffer@[head as int];
            if old.rob.spec_is_empty() || entry.result is None {
                !go_on && new == old
            } else {
                &&& new.rob.instructions_committed == bumped(
                    old.rob.instructions_committed,
                )
                &&& match retire_result(entry, head) {
                    ReorderBufferResult::Writeback(v, k, reg) => {
                        &&& go_on
                        &&& new.registers.gprs@ == old.registers.gprs@.update(
                            reg as int,
                            v,
                        )
                        &&& new.registers.rat@ == if old.registers.rat@[reg as int] == Some(k) {
                            old.registers.rat@.update(reg as int, None)
                        } else {
                            old.registers.rat@
                        }
                        &&& new.rob.commit == next_slot(head as int)
                        &&& new.rob.issue == old.rob.issue
                        &&& new.rob.buffer@ == retired_buffer(old)
                        &&& new.exec_unit == old.exec_unit
                        &&& new.decode_unit == old.decode_unit
                        &&& new.lsq == old.lsq
                        &&& new.fetch_unit == old.fetch_unit
                        &&& new.branch_predictor == old.branch_predictor
                    },
                    ReorderBufferResult::Store(k) => {
                        &&& go_on
                        &&& new.lsq.lsq@ == old.lsq.lsq@.map_values(
                            |e: LSQEntry| entry_committed(e, k),
                        )
                        &&& new.rob.commit == next_slot(head as int)
                        &&& new.rob.issue == old.rob.issue
                        &&& new.rob.buffer@ == retired_buffer(old)
                        &&& new.exec_unit == old.exec_unit
                        &&& new.decode_unit == old.decode_unit
                        &&& new.registers == old.registers
                        &&& new.fetch_unit == old.fetch_unit
                        &&& new.branch_predictor == old.branch_predictor
                    },
                    ReorderBufferResult::BranchTaken(target, pc) => branch_resolved(
                        old,
                        new,
                        pc,
                        target,
                        go_on,
                    ),
                    ReorderBufferResult::BranchNotTaken(pc) => branch_resolved(
                        old,
                        new,
                        pc,
                        (pc + 1) as usize,
                        go_on,
                    ),
                    ReorderBufferResult::Waiting => false,
                }
            }
        })
}

/// Retires the head of the reorder buffer when it has its result, and
/// returns whether commit may go on with the next entry. A value is written
/// to its register (which is unmapped when this entry is still its latest
/// producer); a retired store is marked in the load/store queue; a branch
/// is checked against its prediction, and a misprediction squashes all
/// speculative state and redirects fetch to the branch's actual successor.
pub fn commit_one(cpu: &mut CPU) -> (r: bool)
    requires
        old(cpu).wf(),
    ensures
        final(cpu).wf(),
        final(cpu).fetch_unit.instructions == old(cpu).fetch_unit.instructions,
        final(cpu).exec_unit.mem_unit.instruction == old(cpu).exec_unit.mem_unit.instruction,
        retired(*old(cpu), *final(cpu), r),
{
    let ghost before = *cpu;
    let outcome = cpu.rob.get_commit();
    proof {
        if outcome != ReorderBufferResult::Waiting {
            lemma_retire_in_flight(&before.rob, &cpu.rob);
        }
    }
    match outcome {
        ReorderBufferResult::Writeback(res, rob, reg) => {
            cpu.registers.write_result(res, rob, reg);
            proof {
                assert forall|q: int|
                    0 <= q < NUM_REGS && (#[trigger] cpu.registers.rat@[q]) is Some implies {
                    let k = cpu.registers.rat@[q]->0 as int;
                    &&& cpu.rob.in_flight(k)
                    &&& cpu.rob.buffer@[k].dest == Destination::Register(q as usize)
                } by {
                    assert(before.registers.rat@[q] is Some);
                }
                assert(cpu.rob.buffer@ =~= retired_buffer(before));
            }
            true
        },
        ReorderBufferResult::BranchTaken(target, pc) => {
            if cpu.branch_predictor.prediction_correct(target, pc) {
                true
            } else {
                cpu.reset();
                cpu.fetch_unit.mispredict(target);
                false
            }
        },
        ReorderBufferResult::BranchNotTaken(pc) => {
            let fall_through = pc + 1;
            if cpu.branch_predictor.prediction_correct(fall_through, pc) {
                true
            } else {
                cpu.reset();
                cpu.fetch_unit.mispredict(fall_through);
                false
            }
        },
        ReorderBufferResult::Store(r) => {
            cpu.lsq.committed(r);
            true
        },
        ReorderBufferResult::Waiting => false,
    }
}

/// `new` is `old` after the branch at `pc`, which went to `actual`, was
/// resolved against its recorded prediction; `go_on` tells whether the
/// prediction was right. A wrong prediction squashes all speculative state
/// and sends fetch to `actual` after a bubble.
pub open spec fn branch_resolved(old: CPU, new: CPU, pc: usize, actual: usize, go_on: bool) -> bool {
    let entry = old.branch_predictor.btb@[table_index(pc)];
    let correct = entry.0 == actual;
    let bp = old.branch_predictor;
    &&& go_on == correct
    &&& new.branch_predictor.total_predictions == bumped(bp.total_predictions)
    &&& new.branch_predictor.total_correct == if correct {
        bumped(bp.total_correct)
    } else {
        bp.total_correct
    }
    &&& new.branch_predictor.bht@ == if bp.pred_type >= 1 {
        bp.bht@.update(
            table_index(pc),
            counter_step(bp.bht@[table_index(pc)], correct == entry.1, bp.pred_type),
        )
    } else {
        bp.bht@
    }
    &&& new.branch_predictor.btb@ == bp.btb@
    &&& new.branch_predictor.pred_type == bp.pred_type
    &&& new.rob.instructions_committed == bumped(old.rob.instructions_committed)
    &&& new.fetch_unit.instructions == old.fetch_unit.instructions
    &&& correct ==> {
        &&& new.registers == old.registers
        &&& new.lsq == old.lsq
        &&& new.fetch_unit == old.fetch_unit
        &&& new.exec_unit == old.exec_unit
        &&& new.decode_unit == old.decode_unit
        &&& new.rob.commit == next_slot(old.rob.commit as int)
        &&& new.rob.issue == old.rob.issue
        &&& new.rob.buffer@ == retired_buffer(old)
    }
    &&& !correct ==> {
        &&& squashed(old, new)
        &&& new.fetch_unit.pc == actual
        &&& new.fetch_unit.reset
    }
}

/// Step `j` of a commit trace.
pub open spec fn commit_step(trace: Seq<CPU>, goes: Seq<bool>, j: int) -> bool {
    retired(trace[j], trace[j + 1], goes[j])
}

/// `trace` runs from `old` to `new` through `k = goes.len()` retirement
/// attempts, `1 <= k <= COMMIT_WIDTH`, each as `retired` says with its
/// outcome in `goes`; all but the last went on, and fewer than
/// `COMMIT_WIDTH` attempts means the last one stopped (a head without its
/// result, an empty buffer, or a misprediction).
pub open spec fn commit_trace(old: CPU, new: CPU, trace: Seq<CPU>, goes: Seq<bool>) -> bool {
    let k = goes.len() as int;
    &&& 1 <= k <= COMMIT_WIDTH
    &&& trace.len() == k + 1
    &&& trace[0] == old
    &&& trace[k] == new
    &&& forall|j: int| 0 <= j < k ==> #[trigger] commit_step(trace, goes, j)
    &&& forall|j: int| 0 <= j < k - 1 ==> #[trigger] goes[j]
    &&& k < COMMIT_WIDTH ==> !goes[k - 1]
}

/// Retires up to `COMMIT_WIDTH` reorder-buffer entries in program order
/// with `commit_one`, stopping at a head without its result or after a
/// misprediction.
pub fn commit(cpu: &mut CPU)
    requires
        old(cpu).wf(),
    ensures
        final(cpu).wf(),
        final(cpu).fetch_unit.instructions == old(cpu).fetch_unit.instructions,
        final(cpu).exec_unit.mem_unit.instruction == old(cpu).exec_unit.mem_unit.instruction,
        old(cpu).rob.spec_is_empty() || old(cpu).rob.buffer@[old(cpu).rob.commit as int].result is None
            ==> *final(cpu) == *old(cpu),
        exists|trace: Seq<CPU>, goes: Seq<bool>| #[trigger] commit_trace(
            *old(cpu),
            *final(cpu),
            trace,
            goes,
        ),
{
    let ghost mut trace: Seq<CPU> = seq![*cpu];
    let ghost mut goes: Seq<bool> = seq![];
    let mut n: usize = 0;
    while n < COMMIT_WIDTH
        invariant_except_break
            forall|j: int| 0 <= j < n ==> #[trigger] goes[j],
            goes.len() == n,
        invariant
            cpu.wf(),
            n <= COMMIT_WIDTH,
            goes.len() <= COMMIT_WIDTH,
            trace.len() == goes.len() + 1,
            trace[0] == *old(cpu),
            trace[goes.len() as int] == *cpu,
            forall|j: int| 0 <= j < goes.len() ==> #[trigger] commit_step(trace, goes, j),
            cpu.fetch_unit.instructions == old(cpu).fetch_unit.instructions,
            cpu.exec_unit.mem_unit.instruction == old(cpu).exec_unit.mem_unit.instruction,
            old(cpu).rob.spec_is_empty() || old(cpu).rob.buffer@[old(cpu).rob.commit as int].result
                is None ==> *cpu == *old(cpu),
        ensures
            1 <= goes.len() <= COMMIT_WIDTH,
            forall|j: int| 0 <= j < goes.len() - 1 ==> #[trigger] goes[j],
            goes.len() < COMMIT_WIDTH ==> !goes[goes.len() - 1],
        decreases COMMIT_WIDTH - n,
    {
        let ghost before = *cpu;
        let go_on = commit_one(cpu);
        proof {
            let t = trace.push(*cpu);
            let g = goes.push(go_on);
            assert forall|j: int| 0 <= j < g.len() implies #[trigger] commit_step(t, g, j) by {
                if j < goes.len() {
                    assert(commit_step(trace, goes, j));
                }
            }
            trace = t;
            goes = g;
        }
        if !go_on {
            break;
        }
        n = n + 1;
    }
    proof {
        assert(commit_trace(*old(cpu), *cpu, trace, goes));
    }
}

/// `new` is `old` after a commit stage.
pub open spec fn committed(old: CPU, new: CPU) -> bool {
    exists|trace: Seq<CPU>, goes: Seq<bool>| #[trigger] commit_trace(old, new, trace, goes)
}

/// `new` is `old` after a decode stage.
pub open spec fn decode_stage(old: CPU, new: CPU) -> bool {
    exists|a: CPU, b: CPU| #[trigger] decode_through(old, a, b, new)
}

/// One cycle runs from `old` (with memory `m0`) through the commit stage to
/// `a`, writeback to `b`, execute to `c` (memory `m1`), decode to `d`, and
/// fetch to `new`.
pub open spec fn cycle_through(
    old: CPU,
    a: CPU,
    b: CPU,
    c: CPU,
    d: CPU,
    new: CPU,
    m0: Seq<u32>,
    m1: Seq<u32>,
) -> bool {
    &&& committed(old, a)
    &&& written_back(a, b)
    &&& executed(b, c, m0, m1)
    &&& decode_stage(c, d)
    &&& fetch_stage(d, new)
}

impl CPU {
    /// Runs one cycle: commit, writeback, execute, decode, fetch. Memory
    /// changes only through a store that has retired.
    pub fn cycle(&mut self, memory: &mut Vec<u32>)
        requires
            old(self).wf(),
        ensures
            final(self).wf(),
            final(self).fetch_unit.instructions == old(self).fetch_unit.instructions,
            final(memory)@ != old(memory)@ ==> is_committed_store(
                old(self).exec_unit.mem_unit.instruction,
            ),
            exists|a: CPU, b: CPU, c: CPU, d: CPU| #[trigger] cycle_through(
                *old(self),
                a,
                b,
                c,
                d,
                *final(self),
                old(memory)@,
                final(memory)@,
            ),
    {
        commit(self);
        let ghost a = *self;
        writeback(self);
        let ghost b = *self;
        execute(self, memory);
        let ghost c = *self;
        decode(self);
        let ghost d = *self;
        fetch(self);
        proof {
            assert(cycle_through(*old(self), a, b, c, d, *self, old(memory)@, memory@));
        }
    }
}

} // verus!
