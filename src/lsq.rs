//! The load/store queue, which keeps memory operations in program order, and
//! the memory unit, which performs them one at a time.
//!
//! The memory unit only ever takes the oldest queued operation, so memory
//! operations reach memory strictly in program order: a load never passes
//! an older store, whatever the addresses, and no address disambiguation is
//! needed. A store is taken only once it has retired; a load as soon as its
//! address is known. Addresses outside memory read as zero and writes to
//! them are dropped.

use vstd::prelude::*;

use crate::isa::{ExecResult, Operand};
use crate::station::{operand_wf, resolve_operand, resolved};
use crate::{MEM_LATENCY, ROB_SIZE};

verus! {

/// Load or store.
#[derive(Clone, Copy, Debug, PartialEq, Eq, Structural)]
pub enum LSQOp {
    L,
    S,
}

/// One queued memory operation. A load reads `memory[addr]`; a store writes
/// `value` to `memory[addr]`.
#[derive(Clone, Copy, Debug, PartialEq, Eq, Structural)]
pub struct LSQEntry {
    pub op: LSQOp,
    pub pc: usize,
    pub rob_entry: usize,
    pub addr: Operand,
    pub value: Operand,
    /// Set once the store's reorder-buffer entry has retired.
    pub committed: bool,
}

/// Tags and the reorder-buffer slot are in range.
pub open spec fn entry_wf(e: LSQEntry) -> bool {
    &&& e.rob_entry < ROB_SIZE
    &&& operand_wf(e.addr)
    &&& operand_wf(e.value)
}

/// The memory unit may perform `e` now: a load once its address is known,
/// a store once it has retired and both its address and its value are
/// known.
pub open spec fn executable(e: LSQEntry) -> bool {
    match e.op {
        LSQOp::L => e.addr is Value,
        LSQOp::S => e.committed && e.addr is Value && e.value is Value,
    }
}

/// A store that has retired and still waits to reach memory.
pub open spec fn is_committed_store(e: LSQEntry) -> bool {
    e.op == LSQOp::S && e.committed
}

/// `e` after the value `x` of slot `rob` has been broadcast.
pub open spec fn entry_resolved(e: LSQEntry, x: u32, rob: usize) -> LSQEntry {
    LSQEntry { addr: resolved(e.addr, x, rob), value: resolved(e.value, x, rob), ..e }
}

/// `e` after slot `rob` has retired.
pub open spec fn entry_committed(e: LSQEntry, rob: usize) -> LSQEntry {
    if e.rob_entry == rob {
        LSQEntry { committed: true, ..e }
    } else {
        e
    }
}

impl LSQEntry {
    pub open spec fn spec_new(
        op: LSQOp,
        pc: usize,
        rob_entry: usize,
        addr: Operand,
        value: Operand,
    ) -> LSQEntry {
        LSQEntry { op, pc, rob_entry, addr, value, committed: false }
    }

    pub fn new(op: LSQOp, pc: usize, rob_entry: usize, addr: Operand, value: Operand) -> (r: LSQEntry)
        ensures
            r == (LSQEntry { op, pc, rob_entry, addr, value, committed: false }),
    {
        LSQEntry { op, pc, rob_entry, addr, value, committed: false }
    }
}

/// The queue; its front (index 0) is the oldest operation.
#[derive(Debug)]
pub struct LSQ {
    pub lsq: Vec<LSQEntry>,
}

impl LSQ {
    pub open spec fn wf(&self) -> bool {
        forall|i: int| 0 <= i < self.lsq.len() ==> entry_wf(#[trigger] self.lsq@[i])
    }

    pub fn new() -> (r: LSQ)
        ensures
            r.wf(),
            r.lsq@.len() == 0,
    {
        LSQ { lsq: Vec::new() }
    }

    pub fn finished(&self) -> (r: bool)
        ensures
            r == (self.lsq@.len() == 0),
    {
        self.lsq.len() == 0
    }

    /// Drops every operation but the stores that have already retired,
    /// which keep their order.
    pub fn clear(&mut self)
        requires
            old(self).wf(),
        ensures
            final(self).wf(),
            final(self).lsq@ == old(self).lsq@.filter(|e: LSQEntry| is_committed_store(e)),
            forall|i: int|
                0 <= i < final(self).lsq@.len() ==> old(self).lsq@.contains(
                    #[trigger] final(self).lsq@[i],
                ),
    {
        let ghost pred = |e: LSQEntry| is_committed_store(e);
        let mut kept: Vec<LSQEntry> = Vec::new();
        let mut i: usize = 0;
        while i < self.lsq.len()
            invariant
                self.wf(),
                self.lsq@ == old(self).lsq@,
                pred == (|e: LSQEntry| is_committed_store(e)),
                i <= self.lsq.len(),
                kept@ == self.lsq@.subrange(0, i as int).filter(pred),
                forall|j: int| 0 <= j < kept.len() ==> entry_wf(#[trigger] kept@[j]),
                forall|j: int| 0 <= j < kept.len() ==> self.lsq@.contains(#[trigger] kept@[j]),
            decreases self.lsq.len() - i,
        {
            let e = self.lsq[i];
            proof {
                let s = self.lsq@.subrange(0, i as int);
                assert(self.lsq@.subrange(0, i + 1) =~= s.push(e));
                s.lemma_filter_push(e, pred);
            }
            if e.op == LSQOp::S && e.committed {
                kept.push(e);
                proof {
                    assert(self.lsq@[i as int] == e);
                }
            }
            i = i + 1;
        }
        proof {
            assert(self.lsq@.subrange(0, self.lsq@.len() as int) =~= self.lsq@);
        }
        self.lsq = kept;
    }

    /// Appends an operation at the back.
    pub fn issue(&mut self, op: LSQOp, pc: usize, rob_entry: usize, addr: Operand, value: Operand)
        requires
            old(self).wf(),
            rob_entry < ROB_SIZE,
            operand_wf(addr),
            operand_wf(value),
        ensures
            final(self).wf(),
            final(self).lsq@ == old(self).lsq@.push(
                LSQEntry { op, pc, rob_entry, addr, value, committed: false },
            ),
    {
        self.lsq.push(LSQEntry::new(op, pc, rob_entry, addr, value));
    }

    /// Takes the broadcast value `result` of slot `rob_entry` into every
    /// address and value that waits for it.
    pub fn resolve_dependency(&mut self, result: u32, rob_entry: usize)
        requires
            old(self).wf(),
        ensures
            final(self).wf(),
            final(self).lsq@ == old(self).lsq@.map_values(
                |e: LSQEntry| entry_resolved(e, result, rob_entry),
            ),
    {
        let mut i: usize = 0;
        while i < self.lsq.len()
            invariant
                self.wf(),
                self.lsq.len() == old(self).lsq.len(),
                i <= self.lsq.len(),
                forall|j: int|
                    0 <= j < i ==> #[trigger] self.lsq@[j] == entry_resolved(
                        old(self).lsq@[j],
                        result,
                        rob_entry,
                    ),
                forall|j: int| i <= j < self.lsq.len() ==> #[trigger] self.lsq@[j] == old(self).lsq@[j],
            decreases self.lsq.len() - i,
        {
            let e = self.lsq[i];
            let addr = resolve_operand(e.addr, result, rob_entry);
            let value = resolve_operand(e.value, result, rob_entry);
            self.lsq[i] = LSQEntry { addr, value, ..e };
            i = i + 1;
        }
        proof {
            assert(self.lsq@ =~= old(self).lsq@.map_values(
                |e: LSQEntry| entry_resolved(e, result, rob_entry),
            ));
        }
    }

    /// Removes and returns the oldest operation when the memory unit may
    /// perform it; otherwise leaves the queue as it is.
    pub fn get_next_instruction(&mut self) -> (r: Option<LSQEntry>)
        requires
            old(self).wf(),
        ensures
            final(self).wf(),
            r is Some <==> old(self).lsq@.len() > 0 && executable(old(self).lsq@[0]),
            r is None ==> final(self).lsq@ == old(self).lsq@,
            r matches Some(e) ==> {
                &&& e == old(self).lsq@[0]
                &&& final(self).lsq@ == old(self).lsq@.drop_first()
            },
    {
        if self.lsq.len() == 0 {
            return None;
        }
        let head = self.lsq[0];
        let ready = match head.op {
            LSQOp::S => head.committed && matches!(head.addr, Operand::Value(_)) && matches!(
                head.value,
                Operand::Value(_)
            ),
            LSQOp::L => matches!(head.addr, Operand::Value(_)),
        };
        if ready {
            let e = self.lsq.remove(0);
            proof {
                assert(self.lsq@ =~= old(self).lsq@.drop_first());
            }
            Some(e)
        } else {
            None
        }
    }

    /// Marks the operation of slot `rob_entry` as retired.
    pub fn committed(&mut self, rob_entry: usize)
        requires
            old(self).wf(),
        ensures
            final(self).wf(),
            final(self).lsq@ == old(self).lsq@.map_values(|e: LSQEntry| entry_committed(e, rob_entry)),
    {
        let mut i: usize = 0;
        while i < self.lsq.len()
            invariant
                self.wf(),
                self.lsq.len() == old(self).lsq.len(),
                i <= self.lsq.len(),
                forall|j: int|
                    0 <= j < i ==> #[trigger] self.lsq@[j] == entry_committed(old(self).lsq@[j], rob_entry),
                forall|j: int| i <= j < self.lsq.len() ==> #[trigger] self.lsq@[j] == old(self).lsq@[j],
            decreases self.lsq.len() - i,
        {
            if self.lsq[i].rob_entry == rob_entry {
                let e = self.lsq[i];
                self.lsq[i] = LSQEntry { committed: true, ..e };
            }
            i = i + 1;
        }
        proof {
            assert(self.lsq@ =~= old(self).lsq@.map_values(|e: LSQEntry| entry_committed(e, rob_entry)));
        }
    }
}

/// The word at `addr`; an address outside memory reads as zero.
pub open spec fn mem_read(memory: Seq<u32>, addr: u32) -> u32 {
    if (addr as int) < memory.len() {
        memory[addr as int]
    } else {
        0
    }
}

/// Memory after writing `value` at `addr`; a write outside memory is
/// dropped.
pub open spec fn mem_write(memory: Seq<u32>, addr: u32, value: u32) -> Seq<u32> {
    if (addr as int) < memory.len() {
        memory.update(addr as int, value)
    } else {
        memory
    }
}

/// Performs one memory operation at a time, each taking `MEM_LATENCY`
/// cycles.
#[derive(Debug)]
pub struct MemoryUnit {
    pub instruction: LSQEntry,
    pub cycles: u32,
    /// A finished load's value, until writeback takes it.
    pub result: Option<u32>,
}

impl MemoryUnit {
    /// An operation in progress may be performed, which for a store means
    /// that it has retired.
    pub open spec fn wf(&self) -> bool {
        &&& self.cycles <= MEM_LATENCY
        &&& self.cycles > 0 ==> self.result is None && executable(self.instruction)
        &&& self.result is Some ==> self.instruction.op == LSQOp::L
        &&& entry_wf(self.instruction)
    }

    pub open spec fn idle(&self) -> bool {
        self.cycles == 0 && self.result is None
    }

    /// The unit and memory after one cycle: the count goes down, and as it
    /// reaches zero a store writes memory and a load holds the word it read.
    pub open spec fn after_cycle(self, memory: Seq<u32>) -> (MemoryUnit, Seq<u32>) {
        let e = self.instruction;
        if self.cycles == 0 {
            (self, memory)
        } else if self.cycles > 1 {
            (MemoryUnit { cycles: (self.cycles - 1) as u32, ..self }, memory)
        } else if e.op == LSQOp::S {
            (MemoryUnit { cycles: 0, ..self }, mem_write(memory, e.addr->Value_0, e.value->Value_0))
        } else {
            (
                MemoryUnit { cycles: 0, result: Some(mem_read(memory, e.addr->Value_0)), ..self },
                memory,
            )
        }
    }

    pub fn new() -> (r: MemoryUnit)
        ensures
            r.wf(),
            r.idle(),
    {
        MemoryUnit {
            instruction: LSQEntry::new(LSQOp::S, 0, 0, Operand::Empty, Operand::Empty),
            cycles: 0,
            result: None,
        }
    }

    /// Abandons a load in progress, which is speculative; a store in
    /// progress has retired and goes on to memory.
    pub fn reset(&mut self)
        requires
            old(self).wf(),
        ensures
            final(self).wf(),
            final(self).instruction == old(self).instruction,
            old(self).instruction.op == LSQOp::L ==> final(self).idle(),
            old(self).instruction.op == LSQOp::S ==> *final(self) == *old(self),
    {
        if self.instruction.op == LSQOp::L {
            self.cycles = 0;
            self.result = None;
        }
    }

    pub fn finished(&self) -> (r: bool)
        ensures
            r == self.idle(),
    {
        self.result.is_none() && self.cycles == 0
    }

    /// Starts `next_instruction` when the unit is idle.
    pub fn dispatch(&mut self, next_instruction: LSQEntry) -> (r: bool)
        requires
            old(self).wf(),
            executable(next_instruction),
            entry_wf(next_instruction),
        ensures
            final(self).wf(),
            r == old(self).idle(),
            !r ==> *final(self) == *old(self),
            r ==> final(self).instruction == next_instruction && final(self).cycles == MEM_LATENCY
                && final(self).result is None,
    {
        if self.result.is_none() && self.cycles == 0 {
            self.instruction = next_instruction;
            self.result = None;
            self.cycles = MEM_LATENCY;
            true
        } else {
            false
        }
    }

    /// Advances the unit by one cycle. When an operation finishes, a store
    /// writes memory and a load holds the word it read. Memory changes only
    /// through a store that has retired.
    pub fn cycle(&mut self, memory: &mut Vec<u32>)
        requires
            old(self).wf(),
        ensures
            final(self).wf(),
            final(self).instruction == old(self).instruction,
            old(self).cycles == 0 ==> *final(self) == *old(self) && final(memory)@ == old(memory)@,
            old(self).cycles > 0 ==> final(self).cycles == old(self).cycles - 1,
            (*final(self), final(memory)@) == old(self).after_cycle(old(memory)@),
            ({
                let e = old(self).instruction;
                &&& final(memory)@ == if old(self).cycles == 1 && e.op == LSQOp::S {
                    mem_write(old(memory)@, e.addr->Value_0, e.value->Value_0)
                } else {
                    old(memory)@
                }
                &&& final(self).result == if old(self).cycles == 1 && e.op == LSQOp::L {
                    Some(mem_read(old(memory)@, e.addr->Value_0))
                } else {
                    old(self).result
                }
            }),
            final(memory)@ != old(memory)@ ==> is_committed_store(old(self).instruction),
    {
        if self.cycles > 0 {
            self.cycles = self.cycles - 1;
            if self.cycles == 0 {
                match (self.instruction.op, self.instruction.addr, self.instruction.value) {
                    (LSQOp::S, Operand::Value(addr), Operand::Value(value)) => {
                        if (addr as usize) < memory.len() {
                            memory[addr as usize] = value;
                        }
                    },
                    (LSQOp::L, Operand::Value(addr), _) => {
                        let word = if (addr as usize) < memory.len() {
                            memory[addr as usize]
                        } else {
                            0
                        };
                        self.result = Some(word);
                    },
                    _ => {},
                }
            }
        }
    }

    /// Takes a finished load's (reorder-buffer slot, value).
    pub fn get_result(&mut self) -> (r: Option<(usize, ExecResult)>)
        requires
            old(self).wf(),
        ensures
            final(self).wf(),
            final(self).instruction == old(self).instruction,
            final(self).cycles == old(self).cycles,
            final(self).result is None,
            r == match old(self).result {
                Some(v) => Some((old(self).instruction.rob_entry, ExecResult::Value(v))),
                None => None,
            },
    {
        match self.result {
            Some(v) => {
                self.result = None;
                Some((self.instruction.rob_entry, ExecResult::Value(v)))
            },
            None => None,
        }
    }
}

} // verus!
