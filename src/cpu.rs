//! The core: the execution unit (reservation stations, functional units and
//! memory unit) and the CPU aggregate that owns every piece of pipeline
//! state.

use vstd::prelude::*;

use crate::frontend::{DecodeUnit, FetchUnit};
use crate::isa::{program_valid, EncodedInstruction, ExecResult, FUType, Op, Operand};
use crate::lsq::{is_committed_store, LSQEntry, LSQOp, MemoryUnit, LSQ};
use crate::predictor::BranchPredictor;
use crate::rob::{
    lemma_reserve_in_flight, lemma_reserve_keeps_tags, next_slot, Destination, ReorderBuffer,
    ReorderBufferEntry, Registers,
};
use crate::station::{operand_wf, ReservationStation};
use crate::unit::FunctionalUnit;
use crate::{NUM_ALUS, NUM_BRANCH_UNITS, NUM_MULTS, NUM_REGS, NUM_RS, ROB_SIZE};

verus! {

/// The reservation stations, the functional units and the memory unit.
#[derive(Debug)]
pub struct ExecUnit {
    pub func_units: Vec<FunctionalUnit>,
    pub rs_sts: Vec<ReservationStation>,
    pub mem_unit: MemoryUnit,
}

impl ExecUnit {
    pub open spec fn wf(&self) -> bool {
        &&& self.rs_sts.len() == NUM_RS
        &&& forall|i: int| 0 <= i < self.rs_sts.len() ==> (#[trigger] self.rs_sts@[i]).wf()
        &&& forall|i: int| 0 <= i < self.func_units.len() ==> (#[trigger] self.func_units@[i]).wf()
        &&& self.mem_unit.wf()
    }

    /// No station is busy and no unit holds work.
    pub open spec fn idle(&self) -> bool {
        &&& forall|i: int| 0 <= i < self.rs_sts.len() ==> !(#[trigger] self.rs_sts@[i]).busy
        &&& forall|i: int| 0 <= i < self.func_units.len() ==> (#[trigger] self.func_units@[i]).idle()
        &&& self.mem_unit.idle()
    }

    /// The index of the first free station, if any.
    pub open spec fn first_free(&self, i: int) -> bool {
        &&& 0 <= i < self.rs_sts.len()
        &&& !self.rs_sts@[i].busy
        &&& forall|j: int| 0 <= j < i ==> (#[trigger] self.rs_sts@[j]).busy
    }

    pub open spec fn has_free_rs(&self) -> bool {
        exists|i: int| 0 <= i < self.rs_sts.len() && !(#[trigger] self.rs_sts@[i]).busy
    }

    /// Four arithmetic/logic units, four multiply/divide units, two branch
    /// units, and `NUM_RS` free stations.
    pub fn new() -> (r: ExecUnit)
        ensures
            r.wf(),
            r.idle(),
            r.func_units.len() == NUM_ALUS + NUM_MULTS + NUM_BRANCH_UNITS,
            forall|i: int| 0 <= i < NUM_ALUS ==> (#[trigger] r.func_units@[i]).fu_type == FUType::ALU,
            forall|i: int|
                NUM_ALUS <= i < NUM_ALUS + NUM_MULTS ==> (#[trigger] r.func_units@[i]).fu_type
                    == FUType::Multiplier,
            forall|i: int|
                NUM_ALUS + NUM_MULTS <= i < NUM_ALUS + NUM_MULTS + NUM_BRANCH_UNITS ==> (
                #[trigger] r.func_units@[i]).fu_type == FUType::Branch,
    {
        let mut fus: Vec<FunctionalUnit> = Vec::new();
        let total = NUM_ALUS + NUM_MULTS + NUM_BRANCH_UNITS;
        let mut i: usize = 0;
        while i < total
            invariant
                i <= total,
                total == NUM_ALUS + NUM_MULTS + NUM_BRANCH_UNITS,
                fus.len() == i,
                forall|k: int| 0 <= k < i ==> (#[trigger] fus@[k]).wf() && fus@[k].idle(),
                forall|k: int| 0 <= k < i && k < NUM_ALUS ==> (#[trigger] fus@[k]).fu_type == FUType::ALU,
                forall|k: int|
                    0 <= k < i && NUM_ALUS <= k < NUM_ALUS + NUM_MULTS ==> (#[trigger] fus@[k]).fu_type
                        == FUType::Multiplier,
                forall|k: int|
                    0 <= k < i && NUM_ALUS + NUM_MULTS <= k ==> (#[trigger] fus@[k]).fu_type
                        == FUType::Branch,
            decreases total - i,
        {
            let fu_type = if i < NUM_ALUS {
                FUType::ALU
            } else if i < NUM_ALUS + NUM_MULTS {
                FUType::Multiplier
            } else {
                FUType::Branch
            };
            fus.push(FunctionalUnit::new(fu_type));
            i = i + 1;
        }
        let mut rs_sts: Vec<ReservationStation> = Vec::new();
        let mut j: usize = 0;
        while j < NUM_RS
            invariant
                j <= NUM_RS,
                rs_sts.len() == j,
                forall|k: int| 0 <= k < j ==> (#[trigger] rs_sts@[k]).wf() && !rs_sts@[k].busy,
            decreases NUM_RS - j,
        {
            rs_sts.push(ReservationStation::new());
            j = j + 1;
        }
        ExecUnit { func_units: fus, rs_sts, mem_unit: MemoryUnit::new() }
    }

    /// Frees every station, empties every functional unit, and abandons a
    /// load in the memory unit; a store there has retired and completes.
    pub fn reset(&mut self)
        requires
            old(self).wf(),
        ensures
            final(self).wf(),
            final(self).func_units.len() == old(self).func_units.len(),
            forall|i: int| 0 <= i < NUM_RS ==> !(#[trigger] final(self).rs_sts@[i]).busy,
            forall|i: int|
                0 <= i < final(self).func_units.len() ==> (#[trigger] final(self).func_units@[i]).idle()
                    && final(self).func_units@[i].fu_type == old(self).func_units@[i].fu_type,
            old(self).mem_unit.instruction.op == LSQOp::L ==> final(self).mem_unit.idle(),
            old(self).mem_unit.instruction.op == LSQOp::S ==> final(self).mem_unit
                == old(self).mem_unit,
            final(self).mem_unit.instruction == old(self).mem_unit.instruction,
    {
        let mut i: usize = 0;
        while i < self.rs_sts.len()
            invariant
                self.wf(),
                i <= NUM_RS,
                self.func_units == old(self).func_units,
                self.mem_unit == old(self).mem_unit,
                forall|k: int| 0 <= k < i ==> !(#[trigger] self.rs_sts@[k]).busy,
            decreases NUM_RS - i,
        {
            self.rs_sts[i].free();
            i = i + 1;
        }
        let mut f: usize = 0;
        while f < self.func_units.len()
            invariant
                self.wf(),
                f <= self.func_units.len(),
                self.func_units.len() == old(self).func_units.len(),
                self.mem_unit == old(self).mem_unit,
                forall|k: int| 0 <= k < NUM_RS ==> !(#[trigger] self.rs_sts@[k]).busy,
                forall|k: int|
                    0 <= k < self.func_units.len() ==> (#[trigger] self.func_units@[k]).fu_type
                        == old(self).func_units@[k].fu_type,
                forall|k: int| 0 <= k < f ==> (#[trigger] self.func_units@[k]).idle(),
            decreases self.func_units.len() - f,
        {
            self.func_units[f].reset();
            f = f + 1;
        }
        self.mem_unit.reset();
    }

    /// Every station free and every unit empty.
    pub fn finished(&self) -> (r: bool)
        requires
            self.wf(),
        ensures
            r == self.idle(),
    {
        let mut f: usize = 0;
        while f < self.func_units.len()
            invariant
                self.wf(),
                f <= self.func_units.len(),
                forall|k: int| 0 <= k < f ==> (#[trigger] self.func_units@[k]).idle(),
            decreases self.func_units.len() - f,
        {
            if !self.func_units[f].finished() {
                return false;
            }
            f = f + 1;
        }
        let mut i: usize = 0;
        while i < self.rs_sts.len()
            invariant
                self.wf(),
                i <= self.rs_sts.len(),
                forall|k: int| 0 <= k < i ==> !(#[trigger] self.rs_sts@[k]).busy,
            decreases self.rs_sts.len() - i,
        {
            if !self.rs_sts[i].finished() {
                return false;
            }
            i = i + 1;
        }
        self.mem_unit.finished()
    }

    /// The first free station.
    pub fn get_free_rs(&self) -> (r: Option<usize>)
        requires
            self.wf(),
        ensures
            r is None <==> !self.has_free_rs(),
            r matches Some(i) ==> self.first_free(i as int),
    {
        let mut rs: usize = 0;
        while rs < self.rs_sts.len()
            invariant
                rs <= self.rs_sts.len(),
                forall|k: int| 0 <= k < rs ==> (#[trigger] self.rs_sts@[k]).busy,
            decreases self.rs_sts.len() - rs,
        {
            if !self.rs_sts[rs].busy {
                return Some(rs);
            }
            rs = rs + 1;
        }
        None
    }

    /// Installs a value-producing instruction in station `rs`.
    pub fn issue(&mut self, o1: Operand, o2: Operand, operation: Op, rs: usize, rob_entry: usize)
        requires
            old(self).wf(),
            rs < NUM_RS,
            rob_entry < ROB_SIZE,
            operand_wf(o1),
            operand_wf(o2),
        ensures
            final(self).wf(),
            final(self).func_units == old(self).func_units,
            final(self).mem_unit == old(self).mem_unit,
            final(self).rs_sts.len() == old(self).rs_sts.len(),
            forall|j: int|
                0 <= j < NUM_RS && j != rs ==> #[trigger] final(self).rs_sts@[j] == old(self).rs_sts@[j],
            ({
                let st = final(self).rs_sts@[rs as int];
                &&& st.busy
                &&& st.o1 == o1
                &&& st.o2 == o2
                &&& st.operation == operation
                &&& st.rob_entry == rob_entry
            }),
    {
        self.rs_sts[rs].issue(o1, o2, operation, rob_entry);
    }

    /// Installs a branch to `addr` in station `rs`.
    pub fn issue_branch(
        &mut self,
        o1: Operand,
        o2: Operand,
        operation: Op,
        rs: usize,
        rob_entry: usize,
        addr: usize,
    )
        requires
            old(self).wf(),
            rs < NUM_RS,
            rob_entry < ROB_SIZE,
            operand_wf(o1),
            operand_wf(o2),
        ensures
            final(self).wf(),
            final(self).func_units == old(self).func_units,
            final(self).mem_unit == old(self).mem_unit,
            final(self).rs_sts.len() == old(self).rs_sts.len(),
            forall|j: int|
                0 <= j < NUM_RS && j != rs ==> #[trigger] final(self).rs_sts@[j] == old(self).rs_sts@[j],
            ({
                let st = final(self).rs_sts@[rs as int];
                &&& st.busy
                &&& st.o1 == o1
                &&& st.o2 == o2
                &&& st.operation == operation
                &&& st.rob_entry == rob_entry
                &&& st.address == addr
            }),
    {
        self.rs_sts[rs].issue_branch(o1, o2, operation, rob_entry, addr);
    }
}

/// The decode queue after its head, if any, is removed.
pub open spec fn popped(q: Seq<(usize, EncodedInstruction)>) -> Seq<(usize, EncodedInstruction)> {
    if q.len() > 0 {
        q.drop_first()
    } else {
        q
    }
}

/// `new` is `old` after the head of the decode queue was issued to the first
/// free reservation station as `op` on `o1` and `o2` (with branch target
/// `addr`, for a branch), with a fresh reorder-buffer entry for `dest` and,
/// for a register destination, the register renamed to it. When no station
/// is free or the reorder buffer is full, nothing changes.
pub open spec fn station_issue(
    old: CPU,
    new: CPU,
    dest: Destination,
    o1: Operand,
    o2: Operand,
    op: Op,
    addr: Option<usize>,
) -> bool {
    if !old.exec_unit.has_free_rs() || old.rob.is_full() {
        new == old
    } else {
        let k = old.rob.issue;
        &&& new.rob.issue == next_slot(k as int)
        &&& new.rob.commit == old.rob.commit
        &&& new.rob.instructions_committed == old.rob.instructions_committed
        &&& new.rob.buffer@ == old.rob.buffer@.update(
            k as int,
            (ReorderBufferEntry { dest, result: None }),
        )
        &&& new.registers.gprs == old.registers.gprs
        &&& new.registers.rat@ == match dest {
            Destination::Register(d) => old.registers.rat@.update(d as int, Some(k)),
            _ => old.registers.rat@,
        }
        &&& exists|i: int|
            #![trigger old.exec_unit.first_free(i)]
            old.exec_unit.first_free(i) && {
                let st = new.exec_unit.rs_sts@[i];
                &&& st.busy
                &&& st.o1 == o1
                &&& st.o2 == o2
                &&& st.operation == op
                &&& st.rob_entry == k
                &&& (addr matches Some(a) ==> st.address == a)
                &&& forall|j: int|
                    0 <= j < NUM_RS && j != i ==> #[trigger] new.exec_unit.rs_sts@[j]
                        == old.exec_unit.rs_sts@[j]
            }
        &&& new.exec_unit.rs_sts.len() == old.exec_unit.rs_sts.len()
        &&& new.exec_unit.func_units == old.exec_unit.func_units
        &&& new.exec_unit.mem_unit == old.exec_unit.mem_unit
        &&& new.decode_unit.instruction_q@ == popped(old.decode_unit.instruction_q@)
        &&& new.decode_unit.reset == old.decode_unit.reset
        &&& new.fetch_unit == old.fetch_unit
        &&& new.branch_predictor == old.branch_predictor
        &&& new.lsq == old.lsq
    }
}

/// `new` is `old` after the head of the decode queue, a load or a store,
/// was issued: a fresh reorder-buffer entry for `dest` with result `result`
/// (the register renamed to it, for a load), and the load/store queue
/// extended by `entry` tagged with that slot. When the reorder buffer is
/// full, nothing changes.
pub open spec fn memory_issue(
    old: CPU,
    new: CPU,
    dest: Destination,
    result: Option<ExecResult>,
    entry: LSQEntry,
) -> bool {
    if old.rob.is_full() {
        new == old
    } else {
        let k = old.rob.issue;
        &&& new.rob.issue == next_slot(k as int)
        &&& new.rob.commit == old.rob.commit
        &&& new.rob.instructions_committed == old.rob.instructions_committed
        &&& new.rob.buffer@ == old.rob.buffer@.update(
            k as int,
            (ReorderBufferEntry { dest, result }),
        )
        &&& new.registers.gprs == old.registers.gprs
        &&& new.registers.rat@ == match dest {
            Destination::Register(d) => old.registers.rat@.update(d as int, Some(k)),
            _ => old.registers.rat@,
        }
        &&& new.lsq.lsq@ == old.lsq.lsq@.push((LSQEntry { rob_entry: k, ..entry }))
        &&& new.exec_unit == old.exec_unit
        &&& new.decode_unit.instruction_q@ == popped(old.decode_unit.instruction_q@)
        &&& new.decode_unit.reset == old.decode_unit.reset
        &&& new.fetch_unit == old.fetch_unit
        &&& new.branch_predictor == old.branch_predictor
    }
}

/// `new` is `old` with all speculative state squashed: no register
/// renamed, every station free and every functional unit idle, a load in
/// the memory unit abandoned (a store there goes on), the reorder buffer
/// empty, only retired stores left in the load/store queue, and the decode
/// queue empty with a bubble to come. The register file and the memory
/// unit's operation are kept.
pub open spec fn squashed(old: CPU, new: CPU) -> bool {
    &&& forall|r: int| 0 <= r < NUM_REGS ==> (#[trigger] new.registers.rat@[r]) is None
    &&& new.registers.gprs == old.registers.gprs
    &&& new.exec_unit.rs_sts.len() == old.exec_unit.rs_sts.len()
    &&& forall|i: int| 0 <= i < NUM_RS ==> !(#[trigger] new.exec_unit.rs_sts@[i]).busy
    &&& new.exec_unit.func_units.len() == old.exec_unit.func_units.len()
    &&& forall|i: int|
        0 <= i < new.exec_unit.func_units.len() ==> (#[trigger] new.exec_unit.func_units@[i]).idle()
    &&& old.exec_unit.mem_unit.instruction.op == LSQOp::L ==> new.exec_unit.mem_unit.idle()
    &&& old.exec_unit.mem_unit.instruction.op == LSQOp::S ==> new.exec_unit.mem_unit
        == old.exec_unit.mem_unit
    &&& new.exec_unit.mem_unit.instruction == old.exec_unit.mem_unit.instruction
    &&& new.rob.spec_is_empty()
    &&& new.lsq.lsq@ == old.lsq.lsq@.filter(|e: LSQEntry| is_committed_store(e))
    &&& new.decode_unit.instruction_q@.len() == 0
    &&& new.decode_unit.reset
}

/// The whole core.
#[derive(Debug)]
pub struct CPU {
    pub fetch_unit: FetchUnit,
    pub decode_unit: DecodeUnit,
    pub exec_unit: ExecUnit,
    pub registers: Registers,
    pub rob: ReorderBuffer,
    pub branch_predictor: BranchPredictor,
    pub lsq: LSQ,
}

impl CPU {
    /// Every component is well formed, and the invariants that tie them
    /// together hold: renamed registers, queued stores and operand tags all
    /// name reorder-buffer entries in flight.
    pub open spec fn wf(&self) -> bool {
        &&& self.fetch_unit.wf()
        &&& self.decode_unit.wf()
        &&& self.exec_unit.wf()
        &&& self.registers.wf()
        &&& self.rob.wf()
        &&& self.branch_predictor.wf()
        &&& self.lsq.wf()
        &&& self.renames_in_flight()
        &&& self.pending_stores_in_flight()
        &&& self.tags_pending()
    }

    /// Every tag held by a reservation station or a queued memory operation
    /// waits for an entry in flight; a queued store not yet retired waits
    /// only for older entries, so a retired store waits for nothing.
    pub open spec fn tags_pending(&self) -> bool {
        &&& forall|i: int|
            0 <= i < self.exec_unit.rs_sts.len() ==> self.rob.tag_pending(
                (#[trigger] self.exec_unit.rs_sts@[i]).o1,
            ) && self.rob.tag_pending(self.exec_unit.rs_sts@[i].o2)
        &&& forall|i: int|
            0 <= i < self.lsq.lsq@.len() ==> {
                let e = #[trigger] self.lsq.lsq@[i];
                &&& self.rob.tag_pending(e.addr)
                &&& self.rob.tag_pending(e.value)
                &&& e.op == LSQOp::S && !e.committed ==> self.rob.tag_older(e.addr, e.rob_entry)
                    && self.rob.tag_older(e.value, e.rob_entry)
                &&& e.op == LSQOp::S && e.committed ==> !(e.addr is Rob) && !(e.value is Rob)
            }
    }

    /// Every store in the load/store queue that is not yet marked retired
    /// belongs to a reorder-buffer store entry still in flight.
    pub open spec fn pending_stores_in_flight(&self) -> bool {
        forall|i: int|
            0 <= i < self.lsq.lsq@.len() && (#[trigger] self.lsq.lsq@[i]).op == LSQOp::S
                && !self.lsq.lsq@[i].committed ==> {
                let k = self.lsq.lsq@[i].rob_entry as int;
                &&& self.rob.in_flight(k)
                &&& self.rob.buffer@[k].dest == Destination::Store
            }
    }

    /// Every rename-table entry `Some(k)` has `k` between `commit` and
    /// `issue`, and slot `k` writes that register.
    pub open spec fn renames_in_flight(&self) -> bool {
        forall|r: int|
            0 <= r < NUM_REGS && (#[trigger] self.registers.rat@[r]) is Some ==> {
                let k = self.registers.rat@[r]->0 as int;
                &&& self.rob.in_flight(k)
                &&& self.rob.buffer@[k].dest == Destination::Register(r as usize)
            }
    }

    /// What reading register `reg` gives at issue: the register file's value
    /// when the register is not renamed, else the renamed entry's value when
    /// it is known, else a tag for that entry.
    pub open spec fn operand_for(&self, reg: usize) -> Operand {
        match self.registers.rat@[reg as int] {
            None => Operand::Value(self.registers.gprs@[reg as int]),
            Some(k) => match self.rob.buffer@[k as int].result {
                Some(ExecResult::Value(x)) => Operand::Value(x),
                _ => Operand::Rob(k),
            },
        }
    }

    /// Nothing left to fetch, decode, execute or retire.
    pub open spec fn spec_finished(&self) -> bool {
        &&& self.fetch_unit.pc >= self.fetch_unit.instructions@.len()
        &&& self.decode_unit.instruction_q@.len() == 0
        &&& self.exec_unit.idle()
        &&& self.rob.spec_is_empty()
        &&& self.lsq.lsq@.len() == 0
    }

    /// A core at the start of `instructions`, with predictor type
    /// `pred_type` (0 static, otherwise the counter width in bits).
    pub fn new(instructions: Vec<EncodedInstruction>, pred_type: usize) -> (r: CPU)
        requires
            program_valid(instructions@),
            pred_type < 32,
        ensures
            r.wf(),
            r.fetch_unit.pc == 0,
            r.fetch_unit.instructions@ == instructions@,
            r.branch_predictor.pred_type == pred_type,
            r.decode_unit.instruction_q@.len() == 0,
            r.exec_unit.idle(),
            r.rob.spec_is_empty(),
            r.lsq.lsq@.len() == 0,
            forall|i: int| 0 <= i < NUM_REGS ==> #[trigger] r.registers.gprs@[i] == 0,
    {
        let registers = Registers::new();
        CPU {
            fetch_unit: FetchUnit::new(instructions),
            decode_unit: DecodeUnit::new(),
            exec_unit: ExecUnit::new(),
            registers,
            rob: ReorderBuffer::new(),
            branch_predictor: BranchPredictor::new(pred_type),
            lsq: LSQ::new(),
        }
    }

    /// The core has nothing left to do.
    pub fn finished(&self) -> (r: bool)
        requires
            self.wf(),
        ensures
            r == self.spec_finished(),
    {
        self.fetch_unit.finished() && self.decode_unit.finished() && self.exec_unit.finished()
            && self.rob.is_empty() && self.lsq.finished()
    }

    /// Reads register `reg` for an instruction being issued.
    pub fn read_reg(&self, reg: usize) -> (r: Operand)
        requires
            self.wf(),
            reg < NUM_REGS,
        ensures
            r == self.operand_for(reg),
            operand_wf(r),
    {
        match self.registers.rat[reg] {
            None => Operand::Value(self.registers.gprs[reg]),
            Some(rob_entry) => {
                if let Some(ExecResult::Value(x)) = self.rob.buffer[rob_entry].result {
                    Operand::Value(x)
                } else {
                    Operand::Rob(rob_entry)
                }
            },
        }
    }

    /// The operand for register `reg`: its value when known, otherwise a
    /// tag for the entry that will produce it.
    pub fn get_operand(&self, reg: usize) -> (r: Operand)
        requires
            self.wf(),
            reg < NUM_REGS,
        ensures
            r == self.operand_for(reg),
            operand_wf(r),
    {
        let o = self.read_reg(reg);
        match o {
            Operand::Rob(k) => {
                if let Some(ExecResult::Value(x)) = self.rob.buffer[k].result {
                    Operand::Value(x)
                } else {
                    o
                }
            },
            _ => o,
        }
    }

    /// Issues the decode queue's head to a reservation station; see
    /// `station_issue`.
    fn issue_to_station(
        &mut self,
        dest: Destination,
        o1: Operand,
        o2: Operand,
        op: Op,
        addr: Option<usize>,
    )
        requires
            old(self).wf(),
            dest matches Destination::Register(d) ==> d < NUM_REGS,
            dest matches Destination::Branch(pc) ==> pc < usize::MAX,
            dest != Destination::Store,
            operand_wf(o1),
            operand_wf(o2),
            old(self).rob.tag_pending(o1),
            old(self).rob.tag_pending(o2),
        ensures
            final(self).wf(),
            station_issue(*old(self), *final(self), dest, o1, o2, op, addr),
    {
        if let Some(r) = self.exec_unit.get_free_rs() {
            let ghost before = *self;
            let reserved = match dest {
                Destination::Register(d) => self.rob.commit_to(d),
                Destination::Branch(pc) => self.rob.commit_to_branch(pc),
                Destination::Store => self.rob.commit_to_store(),
            };
            if let Some(rob_pos) = reserved {
                proof {
                    lemma_reserve_in_flight(&before.rob, &self.rob);
                    lemma_reserve_keeps_tags(
                        &before.rob,
                        &self.rob,
                        ReorderBufferEntry { dest, result: None },
                    );
                }
                if let Destination::Register(d) = dest {
                    self.registers.set_owner(d, rob_pos);
                }
                match addr {
                    Some(a) => self.exec_unit.issue_branch(o1, o2, op, r, rob_pos, a),
                    None => self.exec_unit.issue(o1, o2, op, r, rob_pos),
                }
                self.decode_unit.pop_instruction();
                proof {
                    assert(before.exec_unit.first_free(r as int));
                    assert forall|i: int| 0 <= i < self.exec_unit.rs_sts.len() implies self.rob.tag_pending(
                        (#[trigger] self.exec_unit.rs_sts@[i]).o1,
                    ) && self.rob.tag_pending(self.exec_unit.rs_sts@[i].o2) by {
                        if i != r {
                            assert(self.exec_unit.rs_sts@[i] == before.exec_unit.rs_sts@[i]);
                            assert(before.rob.tag_pending(before.exec_unit.rs_sts@[i].o1));
                            assert(before.rob.tag_pending(before.exec_unit.rs_sts@[i].o2));
                        }
                    }
                    assert forall|i: int| 0 <= i < self.lsq.lsq@.len() implies {
                        let e = #[trigger] self.lsq.lsq@[i];
                        &&& self.rob.tag_pending(e.addr)
                        &&& self.rob.tag_pending(e.value)
                        &&& e.op == LSQOp::S && !e.committed ==> self.rob.tag_older(e.addr, e.rob_entry)
                            && self.rob.tag_older(e.value, e.rob_entry)
                        &&& e.op == LSQOp::S && e.committed ==> !(e.addr is Rob) && !(e.value is Rob)
                    } by {
                        let e = self.lsq.lsq@[i];
                        assert(e == before.lsq.lsq@[i]);
                        assert(before.rob.tag_pending(e.addr));
                        assert(before.rob.tag_pending(e.value));
                        if e.op == LSQOp::S && !e.committed {
                            assert(before.rob.tag_older(e.addr, e.rob_entry));
                            assert(before.rob.tag_older(e.value, e.rob_entry));
                        }
                    }
                    assert forall|q: int|
                        0 <= q < NUM_REGS && (#[trigger] self.registers.rat@[q]) is Some implies {
                        let k = self.registers.rat@[q]->0 as int;
                        &&& self.rob.in_flight(k)
                        &&& self.rob.buffer@[k].dest == Destination::Register(q as usize)
                    } by {
                        if dest != Destination::Register(q as usize) {
                            assert(self.registers.rat@[q] == before.registers.rat@[q]);
                        }
                    }
                }
            }
        }
    }

    /// Issues `d := s op t`.
    pub fn issue(&mut self, d: usize, s: usize, t: usize, op: Op)
        requires
            old(self).wf(),
            d < NUM_REGS,
            s < NUM_REGS,
            t < NUM_REGS,
        ensures
            final(self).wf(),
            station_issue(
                *old(self),
                *final(self),
                Destination::Register(d),
                old(self).operand_for(s),
                old(self).operand_for(t),
                op,
                None,
            ),
    {
        let operand1 = self.get_operand(s);
        let operand2 = self.get_operand(t);
        self.issue_to_station(Destination::Register(d), operand1, operand2, op, None);
    }

    /// Issues `d := op s`.
    pub fn issue1(&mut self, d: usize, s: usize, op: Op)
        requires
            old(self).wf(),
            d < NUM_REGS,
            s < NUM_REGS,
        ensures
            final(self).wf(),
            station_issue(
                *old(self),
                *final(self),
                Destination::Register(d),
                old(self).operand_for(s),
                Operand::Empty,
                op,
                None,
            ),
    {
        let operand1 = self.get_operand(s);
        self.issue_to_station(Destination::Register(d), operand1, Operand::Empty, op, None);
    }

    /// Issues `d := op imm`.
    pub fn issue1_imm(&mut self, d: usize, imm: u32, op: Op)
        requires
            old(self).wf(),
            d < NUM_REGS,
        ensures
            final(self).wf(),
            station_issue(
                *old(self),
                *final(self),
                Destination::Register(d),
                Operand::Value(imm),
                Operand::Empty,
                op,
                None,
            ),
    {
        self.issue_to_station(Destination::Register(d), Operand::Value(imm), Operand::Empty, op, None);
    }

    /// Issues `d := s op imm`.
    pub fn issue_imm(&mut self, d: usize, s: usize, imm: u32, op: Op)
        requires
            old(self).wf(),
            d < NUM_REGS,
            s < NUM_REGS,
        ensures
            final(self).wf(),
            station_issue(
                *old(self),
                *final(self),
                Destination::Register(d),
                old(self).operand_for(s),
                Operand::Value(imm),
                op,
                None,
            ),
    {
        let operand1 = self.get_operand(s);
        self.issue_to_station(Destination::Register(d), operand1, Operand::Value(imm), op, None);
    }

    /// Issues the jump at `pc` to `inst`.
    pub fn issue_branch0(&mut self, inst: usize, op: Op, pc: usize)
        requires
            old(self).wf(),
            pc < usize::MAX,
        ensures
            final(self).wf(),
            station_issue(
                *old(self),
                *final(self),
                Destination::Branch(pc),
                Operand::Empty,
                Operand::Empty,
                op,
                Some(inst),
            ),
    {
        self.issue_to_station(Destination::Branch(pc), Operand::Empty, Operand::Empty, op, Some(inst));
    }

    /// Issues the one-register branch at `pc` on `s` to `inst`.
    pub fn issue_branch1(&mut self, s: usize, inst: usize, op: Op, pc: usize)
        requires
            old(self).wf(),
            s < NUM_REGS,
            pc < usize::MAX,
        ensures
            final(self).wf(),
            station_issue(
                *old(self),
                *final(self),
                Destination::Branch(pc),
                old(self).operand_for(s),
                Operand::Empty,
                op,
                Some(inst),
            ),
    {
        let operand1 = self.get_operand(s);
        self.issue_to_station(Destination::Branch(pc), operand1, Operand::Empty, op, Some(inst));
    }

    /// Issues the two-register branch at `pc` on `s` and `t` to `inst`.
    pub fn issue_branch2(&mut self, s: usize, t: usize, inst: usize, op: Op, pc: usize)
        requires
            old(self).wf(),
            s < NUM_REGS,
            t < NUM_REGS,
            pc < usize::MAX,
        ensures
            final(self).wf(),
            station_issue(
                *old(self),
                *final(self),
                Destination::Branch(pc),
                old(self).operand_for(s),
                old(self).operand_for(t),
                op,
                Some(inst),
            ),
    {
        let operand1 = self.get_operand(s);
        let operand2 = self.get_operand(t);
        self.issue_to_station(Destination::Branch(pc), operand1, operand2, op, Some(inst));
    }

    /// Issues the load at `pc` of `memory[addr]` into register `dest`.
    pub fn issue_load(&mut self, addr: usize, dest: usize, pc: usize)
        requires
            old(self).wf(),
            addr < NUM_REGS,
            dest < NUM_REGS,
        ensures
            final(self).wf(),
            memory_issue(
                *old(self),
                *final(self),
                Destination::Register(dest),
                None,
                LSQEntry::spec_new(LSQOp::L, pc, 0, old(self).operand_for(addr), Operand::Empty),
            ),
    {
        let operand1 = self.get_operand(addr);
        let ghost before = *self;
        if let Some(rob_pos) = self.rob.commit_to(dest) {
            proof {
                lemma_reserve_in_flight(&before.rob, &self.rob);
            }
            self.registers.set_owner(dest, rob_pos);
            self.lsq.issue(LSQOp::L, pc, rob_pos, operand1, Operand::Empty);
            self.decode_unit.pop_instruction();
            proof {
                assert forall|q: int|
                    0 <= q < NUM_REGS && (#[trigger] self.registers.rat@[q]) is Some implies {
                    let k = self.registers.rat@[q]->0 as int;
                    &&& self.rob.in_flight(k)
                    &&& self.rob.buffer@[k].dest == Destination::Register(q as usize)
                } by {
                    if q != dest {
                        assert(self.registers.rat@[q] == before.registers.rat@[q]);
                    }
                }
            }
        }
    }

    /// Issues the store at `pc` of register `val` to `memory[addr]`. The
    /// store produces no register value, so no register is renamed.
    pub fn issue_store(&mut self, addr: usize, val: usize, pc: usize)
        requires
            old(self).wf(),
            addr < NUM_REGS,
            val < NUM_REGS,
        ensures
            final(self).wf(),
            memory_issue(
                *old(self),
                *final(self),
                Destination::Store,
                Some(ExecResult::Store),
                LSQEntry::spec_new(
                    LSQOp::S,
                    pc,
                    0,
                    old(self).operand_for(addr),
                    old(self).operand_for(val),
                ),
            ),
    {
        let operand1 = self.get_operand(addr);
        let operand2 = self.get_operand(val);
        let ghost before = *self;
        if let Some(rob_pos) = self.rob.commit_to_store() {
            proof {
                lemma_reserve_in_flight(&before.rob, &self.rob);
            }
            self.lsq.issue(LSQOp::S, pc, rob_pos, operand1, operand2);
            self.decode_unit.pop_instruction();
        }
    }

    /// Squashes all speculative state after a misprediction: unmaps every
    /// register, frees every station, empties every functional unit and the
    /// decode queue, abandons a load in the memory unit, empties the reorder
    /// buffer, and keeps only the retired stores in the load/store queue.
    /// The register file, memory and the predictor are untouched.
    pub fn reset(&mut self)
        requires
            old(self).wf(),
        ensures
            final(self).wf(),
            forall|r: int| 0 <= r < NUM_REGS ==> (#[trigger] final(self).registers.rat@[r]) is None,
            final(self).registers.gprs == old(self).registers.gprs,
            forall|i: int| 0 <= i < NUM_RS ==> !(#[trigger] final(self).exec_unit.rs_sts@[i]).busy,
            forall|i: int|
                0 <= i < final(self).exec_unit.func_units.len() ==> (
                #[trigger] final(self).exec_unit.func_units@[i]).idle(),
            final(self).exec_unit.func_units.len() == old(self).exec_unit.func_units.len(),
            old(self).exec_unit.mem_unit.instruction.op == LSQOp::L
                ==> final(self).exec_unit.mem_unit.idle(),
            old(self).exec_unit.mem_unit.instruction.op == LSQOp::S ==> final(self).exec_unit.mem_unit
                == old(self).exec_unit.mem_unit,
            final(self).exec_unit.mem_unit.instruction == old(self).exec_unit.mem_unit.instruction,
            final(self).rob.spec_is_empty(),
            final(self).rob.instructions_committed == old(self).rob.instructions_committed,
            final(self).lsq.lsq@ == old(self).lsq.lsq@.filter(|e: LSQEntry| is_committed_store(e)),
            final(self).decode_unit.instruction_q@.len() == 0,
            final(self).decode_unit.reset,
            final(self).fetch_unit == old(self).fetch_unit,
            final(self).branch_predictor == old(self).branch_predictor,
            squashed(*old(self), *final(self)),
    {
        self.registers.clear_rat();
        self.exec_unit.reset();
        self.decode_unit.reset();
        self.rob.empty();
        self.lsq.clear();
    }
}

/// The invariants that every cycle keeps (`CPU::cycle` preserves `wf`):
/// every rename-table entry `Some(k)` has `k` among the reorder-buffer
/// entries in flight, from `commit` up to but excluding `issue`; a
/// reservation station is ready exactly when neither operand is a tag; a
/// functional unit still counting cycles holds no result; a queued store
/// not marked retired belongs to a reorder-buffer entry still in flight
/// (the mark is set only as that entry retires); a store that the memory
/// unit is performing is marked retired; every tag that a reservation
/// station or a queued memory operation holds names an entry in flight that
/// has no result yet; and a retired store holds no tag, so it can always
/// drain.
pub proof fn lemma_cycle_invariants(cpu: &CPU)
    requires
        cpu.wf(),
    ensures
        forall|r: int|
            0 <= r < NUM_REGS && (#[trigger] cpu.registers.rat@[r]) is Some ==> cpu.rob.in_flight(
                cpu.registers.rat@[r]->0 as int,
            ),
        forall|i: int|
            0 <= i < cpu.exec_unit.rs_sts.len() ==> (#[trigger] cpu.exec_unit.rs_sts@[i]).ready == (!(
            cpu.exec_unit.rs_sts@[i].o1 is Rob) && !(cpu.exec_unit.rs_sts@[i].o2 is Rob)),
        forall|i: int|
            0 <= i < cpu.exec_unit.func_units.len() && (#[trigger] cpu.exec_unit.func_units@[i]).cycles
                > 0 ==> cpu.exec_unit.func_units@[i].result is None,
        forall|i: int|
            0 <= i < cpu.lsq.lsq@.len() && (#[trigger] cpu.lsq.lsq@[i]).op == LSQOp::S
                && !cpu.lsq.lsq@[i].committed ==> cpu.rob.in_flight(cpu.lsq.lsq@[i].rob_entry as int),
        cpu.exec_unit.mem_unit.cycles > 0 && cpu.exec_unit.mem_unit.instruction.op == LSQOp::S
            ==> cpu.exec_unit.mem_unit.instruction.committed,
        forall|i: int|
            0 <= i < cpu.exec_unit.rs_sts.len() ==> cpu.rob.tag_pending(
                (#[trigger] cpu.exec_unit.rs_sts@[i]).o1,
            ) && cpu.rob.tag_pending(cpu.exec_unit.rs_sts@[i].o2),
        forall|i: int|
            0 <= i < cpu.lsq.lsq@.len() ==> cpu.rob.tag_pending((#[trigger] cpu.lsq.lsq@[i]).addr)
                && cpu.rob.tag_pending(cpu.lsq.lsq@[i].value),
        forall|i: int|
            0 <= i < cpu.lsq.lsq@.len() && is_committed_store(#[trigger] cpu.lsq.lsq@[i]) ==> !(
            cpu.lsq.lsq@[i].addr is Rob) && !(cpu.lsq.lsq@[i].value is Rob),
{
}

} // verus!
