//! The reorder buffer, which retires instructions in program order, and the
//! architectural register file with its rename table.
//!
//! Each entry records what it retires into: a register, a branch (with the
//! branch's own pc, from which the fall-through pc follows), or a store. A
//! store writes no register, so issuing one renames nothing, and only
//! register entries are ever named by the rename table.

use vstd::prelude::*;

use crate::isa::{ExecResult, Operand};
use crate::{NUM_REGS, ROB_SIZE};

verus! {

/// What a reorder-buffer entry retires into.
#[derive(Clone, Copy, Debug, PartialEq, Eq, Structural)]
pub enum Destination {
    /// An architectural register receives the entry's value.
    Register(usize),
    /// A branch at the given program counter is resolved.
    Branch(usize),
    /// A store is released to memory.
    Store,
}

/// Whether `result` is the kind of result that an entry with destination
/// `dest` receives.
pub open spec fn result_fits(dest: Destination, result: ExecResult) -> bool {
    match dest {
        Destination::Register(_) => result is Value,
        Destination::Branch(_) => result is BranchTaken || result is BranchNotTaken,
        Destination::Store => result is Store,
    }
}

/// One slot of the reorder buffer.
#[derive(Clone, Copy, Debug, PartialEq, Eq, Structural)]
pub struct ReorderBufferEntry {
    pub dest: Destination,
    /// `None` while the instruction has not produced its result.
    pub result: Option<ExecResult>,
}

impl ReorderBufferEntry {
    pub fn new() -> (r: ReorderBufferEntry)
        ensures
            r.dest == Destination::Register(0),
            r.result is None,
    {
        ReorderBufferEntry { dest: Destination::Register(0), result: None }
    }

    /// Forgets the result.
    pub fn clear(&mut self)
        ensures
            final(self).dest == old(self).dest,
            final(self).result is None,
    {
        self.result = None;
    }
}

/// What retiring the head of the reorder buffer hands to the commit stage.
#[derive(Clone, Copy, Debug, PartialEq, Eq, Structural)]
pub enum ReorderBufferResult {
    /// Write `value` to `register`; the entry was `rob`: (value, rob, register).
    Writeback(u32, usize, usize),
    /// The branch at `pc` jumped to `target`: (target, pc).
    BranchTaken(usize, usize),
    /// The branch at `pc` fell through.
    BranchNotTaken(usize),
    /// The store of entry `rob` may now reach memory.
    Store(usize),
    /// The head has no result yet, or the buffer is empty: nothing retired.
    Waiting,
}

/// What retiring `entry`, held in slot `k`, reports.
pub open spec fn retire_result(entry: ReorderBufferEntry, k: usize) -> ReorderBufferResult {
    match entry.result {
        Some(ExecResult::Value(v)) => match entry.dest {
            Destination::Register(r) => ReorderBufferResult::Writeback(v, k, r),
            _ => ReorderBufferResult::Waiting,
        },
        Some(ExecResult::BranchTaken(t)) => match entry.dest {
            Destination::Branch(pc) => ReorderBufferResult::BranchTaken(t, pc),
            _ => ReorderBufferResult::Waiting,
        },
        Some(ExecResult::BranchNotTaken) => match entry.dest {
            Destination::Branch(pc) => ReorderBufferResult::BranchNotTaken(pc),
            _ => ReorderBufferResult::Waiting,
        },
        Some(ExecResult::Store) => ReorderBufferResult::Store(k),
        None => ReorderBufferResult::Waiting,
    }
}

/// A register destination names an architectural register, a branch is not
/// at the last representable address, and a result present fits the
/// destination.
pub open spec fn entry_wf(e: ReorderBufferEntry) -> bool {
    &&& (e.dest matches Destination::Register(r) ==> r < NUM_REGS)
    &&& (e.dest matches Destination::Branch(pc) ==> pc < usize::MAX)
    &&& (e.result matches Some(res) ==> result_fits(e.dest, res))
}

/// `buffer` after recording `result` in slot `pos`, which happens only when
/// the result fits the slot's destination.
pub open spec fn with_result(
    buffer: Seq<ReorderBufferEntry>,
    pos: int,
    result: ExecResult,
) -> Seq<ReorderBufferEntry> {
    if result_fits(buffer[pos].dest, result) {
        buffer.update(pos, (ReorderBufferEntry { dest: buffer[pos].dest, result: Some(result) }))
    } else {
        buffer
    }
}

/// The slot after `x` in a circular buffer of `ROB_SIZE` slots.
pub open spec fn next_slot(x: int) -> int {
    (x + 1) % (ROB_SIZE as int)
}

/// A circular buffer of `ROB_SIZE` slots. The entries in flight run from
/// `commit` (the oldest) up to, but not including, `issue`; one slot always
/// stays unused so that a full buffer differs from an empty one.
#[derive(Debug)]
pub struct ReorderBuffer {
    /// Entries retired so far (saturating).
    pub instructions_committed: u64,
    pub commit: usize,
    pub issue: usize,
    pub buffer: Vec<ReorderBufferEntry>,
}

impl ReorderBuffer {
    pub open spec fn wf(&self) -> bool {
        &&& self.buffer.len() == ROB_SIZE
        &&& self.commit < ROB_SIZE
        &&& self.issue < ROB_SIZE
        &&& forall|k: int| 0 <= k < ROB_SIZE ==> entry_wf(#[trigger] self.buffer@[k])
    }

    /// Number of entries in flight.
    pub open spec fn occupancy(&self) -> int {
        (self.issue + ROB_SIZE - self.commit) % (ROB_SIZE as int)
    }

    /// How many slots slot `k` lies after the oldest entry.
    pub open spec fn position(&self, k: int) -> int {
        (k + ROB_SIZE - self.commit) % (ROB_SIZE as int)
    }

    /// Slot `k` holds an instruction that has been issued and not retired.
    pub open spec fn in_flight(&self, k: int) -> bool {
        0 <= k < ROB_SIZE && self.position(k) < self.occupancy()
    }

    /// A tag names an entry in flight that writes a register and has no
    /// result yet.
    pub open spec fn tag_pending(&self, o: Operand) -> bool {
        match o {
            Operand::Rob(k) => {
                &&& self.in_flight(k as int)
                &&& self.buffer@[k as int].dest is Register
                &&& self.buffer@[k as int].result is None
            },
            _ => true,
        }
    }

    /// A tag names an entry older than slot `k`.
    pub open spec fn tag_older(&self, o: Operand, k: usize) -> bool {
        match o {
            Operand::Rob(j) => self.position(j as int) < self.position(k as int),
            _ => true,
        }
    }

    pub open spec fn spec_is_empty(&self) -> bool {
        self.commit == self.issue
    }

    /// No slot is left for another instruction.
    pub open spec fn is_full(&self) -> bool {
        next_slot(self.issue as int) == self.commit
    }

    pub fn new() -> (r: ReorderBuffer)
        ensures
            r.wf(),
            r.spec_is_empty(),
            r.commit == 0,
            r.instructions_committed == 0,
            forall|k: int| 0 <= k < ROB_SIZE ==> (#[trigger] r.buffer@[k]).result is None,
    {
        let mut buffer: Vec<ReorderBufferEntry> = Vec::new();
        let mut i: usize = 0;
        while i < ROB_SIZE
            invariant
                i <= ROB_SIZE,
                buffer.len() == i,
                forall|k: int| 0 <= k < i ==> #[trigger] buffer@[k] == (ReorderBufferEntry {
                    dest: Destination::Register(0),
                    result: None,
                }),
            decreases ROB_SIZE - i,
        {
            buffer.push(ReorderBufferEntry::new());
            i = i + 1;
        }
        ReorderBuffer { instructions_committed: 0, commit: 0, issue: 0, buffer }
    }

    pub fn is_empty(&self) -> (r: bool)
        ensures
            r == self.spec_is_empty(),
    {
        self.commit == self.issue
    }

    /// Drops every entry: the buffer is empty afterwards, with no results
    /// left in any slot.
    pub fn empty(&mut self)
        requires
            old(self).wf(),
        ensures
            final(self).wf(),
            final(self).spec_is_empty(),
            final(self).commit == 0,
            final(self).instructions_committed == old(self).instructions_committed,
            forall|k: int| 0 <= k < ROB_SIZE ==> (#[trigger] final(self).buffer@[k]).result is None,
    {
        let mut i: usize = 0;
        while i < self.buffer.len()
            invariant
                self.wf(),
                i <= ROB_SIZE,
                self.instructions_committed == old(self).instructions_committed,
                forall|k: int| 0 <= k < i ==> (#[trigger] self.buffer@[k]).result is None,
            decreases ROB_SIZE - i,
        {
            self.buffer[i].clear();
            i = i + 1;
        }
        self.commit = 0;
        self.issue = 0;
    }

    /// The slot after `x`.
    pub fn inc(&self, x: usize) -> (r: usize)
        requires
            self.wf(),
            x < ROB_SIZE,
        ensures
            r == next_slot(x as int),
    {
        (x + 1) % self.buffer.len()
    }

    /// Reserves the next slot for an entry with destination `dest` and
    /// result `result`, or returns `None` when the buffer is full.
    fn reserve(&mut self, dest: Destination, result: Option<ExecResult>) -> (r: Option<usize>)
        requires
            old(self).wf(),
            dest matches Destination::Register(reg) ==> reg < NUM_REGS,
            dest matches Destination::Branch(pc) ==> pc < usize::MAX,
            result matches Some(res) ==> result_fits(dest, res),
        ensures
            final(self).wf(),
            r is None <==> old(self).is_full(),
            r is None ==> *final(self) == *old(self),
            r matches Some(k) ==> {
                &&& k == old(self).issue
                &&& final(self).issue == next_slot(old(self).issue as int)
                &&& final(self).commit == old(self).commit
                &&& final(self).instructions_committed == old(self).instructions_committed
                &&& final(self).buffer@ == old(self).buffer@.update(
                    k as int,
                    (ReorderBufferEntry { dest, result }),
                )
            },
    {
        if self.inc(self.issue) == self.commit {
            None
        } else {
            let ret = self.issue;
            self.buffer[ret] = ReorderBufferEntry { dest, result };
            self.issue = self.inc(self.issue);
            Some(ret)
        }
    }

    /// Reserves a slot for an instruction that writes `register`.
    pub fn commit_to(&mut self, register: usize) -> (r: Option<usize>)
        requires
            old(self).wf(),
            register < NUM_REGS,
        ensures
            final(self).wf(),
            r is None <==> old(self).is_full(),
            r is None ==> *final(self) == *old(self),
            r matches Some(k) ==> {
                &&& k == old(self).issue
                &&& final(self).issue == next_slot(old(self).issue as int)
                &&& final(self).commit == old(self).commit
                &&& final(self).instructions_committed == old(self).instructions_committed
                &&& final(self).buffer@ == old(self).buffer@.update(
                    k as int,
                    (ReorderBufferEntry { dest: Destination::Register(register), result: None }),
                )
            },
    {
        self.reserve(Destination::Register(register), None)
    }

    /// Reserves a slot for the branch at `pc`.
    pub fn commit_to_branch(&mut self, pc: usize) -> (r: Option<usize>)
        requires
            old(self).wf(),
            pc < usize::MAX,
        ensures
            final(self).wf(),
            r is None <==> old(self).is_full(),
            r is None ==> *final(self) == *old(self),
            r matches Some(k) ==> {
                &&& k == old(self).issue
                &&& final(self).issue == next_slot(old(self).issue as int)
                &&& final(self).commit == old(self).commit
                &&& final(self).instructions_committed == old(self).instructions_committed
                &&& final(self).buffer@ == old(self).buffer@.update(
                    k as int,
                    (ReorderBufferEntry { dest: Destination::Branch(pc), result: None }),
                )
            },
    {
        self.reserve(Destination::Branch(pc), None)
    }

    /// Reserves a slot for a store; its result is known at once.
    pub fn commit_to_store(&mut self) -> (r: Option<usize>)
        requires
            old(self).wf(),
        ensures
            final(self).wf(),
            r is None <==> old(self).is_full(),
            r is None ==> *final(self) == *old(self),
            r matches Some(k) ==> {
                &&& k == old(self).issue
                &&& final(self).issue == next_slot(old(self).issue as int)
                &&& final(self).commit == old(self).commit
                &&& final(self).instructions_committed == old(self).instructions_committed
                &&& final(self).buffer@ == old(self).buffer@.update(
                    k as int,
                    (ReorderBufferEntry {
                        dest: Destination::Store,
                        result: Some(ExecResult::Store),
                    }),
                )
            },
    {
        self.reserve(Destination::Store, Some(ExecResult::Store))
    }

    /// Records the result of the instruction in slot `pos`. A result of the
    /// wrong kind for the slot's destination is ignored.
    pub fn insert(&mut self, pos: usize, result: ExecResult)
        requires
            old(self).wf(),
            pos < ROB_SIZE,
        ensures
            final(self).wf(),
            final(self).commit == old(self).commit,
            final(self).issue == old(self).issue,
            final(self).instructions_committed == old(self).instructions_committed,
            final(self).buffer@ == with_result(old(self).buffer@, pos as int, result),
            final(self).buffer@ == if result_fits(old(self).buffer@[pos as int].dest, result) {
                old(self).buffer@.update(
                    pos as int,
                    (ReorderBufferEntry { dest: old(self).buffer@[pos as int].dest, result: Some(result) }),
                )
            } else {
                old(self).buffer@
            },
    {
        let fits = match (self.buffer[pos].dest, result) {
            (Destination::Register(_), ExecResult::Value(_)) => true,
            (Destination::Branch(_), ExecResult::BranchTaken(_)) => true,
            (Destination::Branch(_), ExecResult::BranchNotTaken) => true,
            (Destination::Store, ExecResult::Store) => true,
            _ => false,
        };
        if fits {
            self.buffer[pos].result = Some(result);
        }
    }

    /// Retires the oldest entry when it has its result. The head is never
    /// retired while its result is missing.
    pub fn get_commit(&mut self) -> (r: ReorderBufferResult)
        requires
            old(self).wf(),
        ensures
            final(self).wf(),
            ({
                let head = old(self).commit;
                if old(self).spec_is_empty() || old(self).buffer@[head as int].result is None {
                    r == ReorderBufferResult::Waiting && *final(self) == *old(self)
                } else {
                    &&& r == retire_result(old(self).buffer@[head as int], head)
                    &&& r != ReorderBufferResult::Waiting
                    &&& final(self).commit == next_slot(head as int)
                    &&& final(self).issue == old(self).issue
                    &&& final(self).instructions_committed == if old(self).instructions_committed
                        < u64::MAX {
                        old(self).instructions_committed + 1
                    } else {
                        old(self).instructions_committed as int
                    }
                    &&& final(self).buffer@ == old(self).buffer@.update(
                        head as int,
                        (ReorderBufferEntry { dest: old(self).buffer@[head as int].dest, result: None }),
                    )
                }
            }),
    {
        if self.commit == self.issue {
            return ReorderBufferResult::Waiting;
        }
        let head = self.commit;
        let entry = self.buffer[head];
        match entry.result {
            None => ReorderBufferResult::Waiting,
            Some(result) => {
                proof {
                    assert(result_fits(entry.dest, result));
                }
                self.instructions_committed = self.instructions_committed.saturating_add(1);
                self.buffer[head].clear();
                self.commit = self.inc(self.commit);
                match (result, entry.dest) {
                    (ExecResult::Value(v), Destination::Register(reg)) => {
                        ReorderBufferResult::Writeback(v, head, reg)
                    },
                    (ExecResult::BranchTaken(t), Destination::Branch(pc)) => {
                        ReorderBufferResult::BranchTaken(t, pc)
                    },
                    (ExecResult::BranchNotTaken, Destination::Branch(pc)) => {
                        ReorderBufferResult::BranchNotTaken(pc)
                    },
                    (ExecResult::Store, _) => ReorderBufferResult::Store(head),
                    _ => ReorderBufferResult::Waiting,
                }
            },
        }
    }
}

/// Reserving a slot adds exactly the old `issue` slot to the entries in
/// flight.
pub proof fn lemma_reserve_in_flight(before: &ReorderBuffer, after: &ReorderBuffer)
    requires
        before.wf(),
        !before.is_full(),
        after.commit == before.commit,
        after.issue == next_slot(before.issue as int),
    ensures
        !before.in_flight(before.issue as int),
        forall|k: int|
            #[trigger] after.in_flight(k) <==> before.in_flight(k) || k == before.issue,
{
}

/// Reserving a slot keeps every pending tag pending, keeps the order of the
/// entries in flight, and makes every entry in flight older than the new
/// one.
pub proof fn lemma_reserve_keeps_tags(
    before: &ReorderBuffer,
    after: &ReorderBuffer,
    entry: ReorderBufferEntry,
)
    requires
        before.wf(),
        !before.is_full(),
        after.commit == before.commit,
        after.issue == next_slot(before.issue as int),
        after.buffer@ == before.buffer@.update(before.issue as int, entry),
    ensures
        forall|o: Operand| #[trigger] before.tag_pending(o) ==> after.tag_pending(o),
        forall|o: Operand, k: usize| #[trigger] before.tag_older(o, k) ==> after.tag_older(o, k),
        forall|o: Operand| #[trigger] before.tag_pending(o) ==> after.tag_older(o, before.issue),
{
    lemma_reserve_in_flight(before, after);
}

/// Retiring the head removes exactly the old `commit` slot from the entries
/// in flight.
pub proof fn lemma_retire_in_flight(before: &ReorderBuffer, after: &ReorderBuffer)
    requires
        before.wf(),
        !before.spec_is_empty(),
        after.commit == next_slot(before.commit as int),
        after.issue == before.issue,
    ensures
        before.in_flight(before.commit as int),
        before.position(before.commit as int) == 0,
        forall|k: int|
            #[trigger] after.in_flight(k) <==> before.in_flight(k) && k != before.commit,
        forall|k: int|
            0 <= k < ROB_SIZE && k != before.commit ==> #[trigger] after.position(k)
                == before.position(k) - 1,
{
}

/// A full buffer takes no new entry, and retiring its head frees a slot:
/// a full reorder buffer blocks decode only until commit retires an entry.
pub proof fn lemma_retire_unblocks(before: &ReorderBuffer, after: &ReorderBuffer)
    requires
        before.wf(),
        before.is_full(),
        after.commit == next_slot(before.commit as int),
        after.issue == before.issue,
    ensures
        !before.spec_is_empty(),
        !after.is_full(),
{
}

/// The architectural registers and the rename table. `rat[r]` is the
/// reorder-buffer slot that will produce the next value of register `r`,
/// or `None` when the register file holds it.
#[derive(Debug)]
pub struct Registers {
    pub gprs: Vec<u32>,
    pub rat: Vec<Option<usize>>,
}

impl Registers {
    pub open spec fn wf(&self) -> bool {
        &&& self.gprs.len() == NUM_REGS
        &&& self.rat.len() == NUM_REGS
        &&& forall|r: int|
            0 <= r < NUM_REGS && (#[trigger] self.rat@[r]) is Some ==> self.rat@[r]->0 < ROB_SIZE
    }

    /// All registers zero, none renamed.
    pub fn new() -> (r: Registers)
        ensures
            r.wf(),
            forall|i: int| 0 <= i < NUM_REGS ==> #[trigger] r.gprs@[i] == 0,
            forall|i: int| 0 <= i < NUM_REGS ==> (#[trigger] r.rat@[i]) is None,
    {
        let mut gprs: Vec<u32> = Vec::new();
        let mut rat: Vec<Option<usize>> = Vec::new();
        let mut i: usize = 0;
        while i < NUM_REGS
            invariant
                i <= NUM_REGS,
                gprs.len() == i,
                rat.len() == i,
                forall|k: int| 0 <= k < i ==> #[trigger] gprs@[k] == 0,
                forall|k: int| 0 <= k < i ==> (#[trigger] rat@[k]) is None,
            decreases NUM_REGS - i,
        {
            gprs.push(0);
            rat.push(None);
            i = i + 1;
        }
        Registers { gprs, rat }
    }

    /// Unmaps every register.
    pub fn clear_rat(&mut self)
        requires
            old(self).wf(),
        ensures
            final(self).wf(),
            final(self).gprs == old(self).gprs,
            forall|i: int| 0 <= i < NUM_REGS ==> (#[trigger] final(self).rat@[i]) is None,
    {
        let mut i: usize = 0;
        while i < self.rat.len()
            invariant
                self.wf(),
                self.gprs == old(self).gprs,
                i <= NUM_REGS,
                forall|k: int| 0 <= k < i ==> (#[trigger] self.rat@[k]) is None,
            decreases NUM_REGS - i,
        {
            self.rat[i] = None;
            i = i + 1;
        }
    }

    /// Renames `reg` to reorder-buffer slot `new_owner`.
    pub fn set_owner(&mut self, reg: usize, new_owner: usize)
        requires
            old(self).wf(),
            reg < NUM_REGS,
            new_owner < ROB_SIZE,
        ensures
            final(self).wf(),
            final(self).gprs == old(self).gprs,
            final(self).rat@ == old(self).rat@.update(reg as int, Some(new_owner)),
    {
        self.rat[reg] = Some(new_owner);
    }

    /// Writes `value` to `register` as slot `rob` retires, and unmaps the
    /// register when `rob` is still its latest producer.
    pub fn write_result(&mut self, value: u32, rob: usize, register: usize)
        requires
            old(self).wf(),
            register < NUM_REGS,
        ensures
            final(self).wf(),
            final(self).gprs@ == old(self).gprs@.update(register as int, value),
            final(self).rat@ == if old(self).rat@[register as int] == Some(rob) {
                old(self).rat@.update(register as int, None)
            } else {
                old(self).rat@
            },
    {
        self.gprs[register] = value;
        if let Some(owner) = self.rat[register] {
            if owner == rob {
                self.rat[register] = None;
            }
        }
    }
}

} // verus!
