//! Functional units: pipelined executors of arithmetic, multiply/divide and
//! branch operations.

use vstd::prelude::*;

use crate::isa::{accepts, compute, latency, op_result, ExecResult, FUType, Op};
use crate::ROB_SIZE;

verus! {

/// A functional unit. It works on one operation (`operation`, `op1`, `op2`,
/// `addr`, `rob_entry`) for `cycles` more cycles, then holds its result
/// until writeback takes it. One more operation may wait in the `*_next`
/// fields; it starts when the result is taken.
#[derive(Debug)]
pub struct FunctionalUnit {
    pub fu_type: FUType,
    pub op1: u32,
    pub op2: u32,
    pub addr: usize,
    pub operation: Op,
    pub cycles: u32,
    /// The finished operation's reorder-buffer slot and result.
    pub result: Option<(usize, ExecResult)>,
    pub rob_entry: usize,
    pub op1_next: u32,
    pub op2_next: u32,
    pub addr_next: usize,
    /// `Op::Nop` when no operation waits.
    pub operation_next: Op,
    pub rob_entry_next: usize,
}

impl FunctionalUnit {
    pub open spec fn wf(&self) -> bool {
        &&& self.cycles > 0 ==> self.result is None
        &&& self.cycles > 0 ==> accepts(self.fu_type, self.operation) && self.cycles <= latency(
            self.operation,
        )
        &&& self.operation_next != Op::Nop ==> accepts(self.fu_type, self.operation_next)
        &&& self.cycles == 0 && self.result is None ==> self.operation_next == Op::Nop
        &&& self.rob_entry < ROB_SIZE
        &&& self.rob_entry_next < ROB_SIZE
        &&& self.result matches Some(p) ==> p.0 < ROB_SIZE
    }

    /// Nothing in progress, nothing waiting, no result held.
    pub open spec fn idle(&self) -> bool {
        self.cycles == 0 && self.result is None && self.operation_next == Op::Nop
    }

    /// The unit after one cycle: the count goes down, and the result of the
    /// current operation appears as it reaches zero.
    pub open spec fn after_cycle(self) -> FunctionalUnit {
        if self.cycles == 0 {
            self
        } else if self.cycles == 1 {
            FunctionalUnit {
                cycles: 0,
                result: Some(
                    (self.rob_entry, op_result(self.operation, self.op1, self.op2, self.addr)),
                ),
                ..self
            }
        } else {
            FunctionalUnit { cycles: (self.cycles - 1) as u32, ..self }
        }
    }

    /// The unit after taking an operation: it starts at once when the unit
    /// is idle, and otherwise waits as the next operation.
    pub open spec fn accept(self, o1: u32, o2: u32, operation: Op, rob_entry: usize, addr: usize) -> FunctionalUnit {
        if self.cycles == 0 && self.result is None {
            FunctionalUnit {
                op1: o1,
                op2: o2,
                addr,
                operation,
                rob_entry,
                cycles: latency(operation) as u32,
                ..self
            }
        } else {
            FunctionalUnit {
                op1_next: o1,
                op2_next: o2,
                addr_next: addr,
                operation_next: operation,
                rob_entry_next: rob_entry,
                ..self
            }
        }
    }

    /// The unit after writeback takes its result: the waiting operation, if
    /// any, becomes current and starts its count.
    pub open spec fn harvested(self) -> FunctionalUnit {
        if self.result is None {
            self
        } else if self.operation_next == Op::Nop {
            FunctionalUnit { result: None, ..self }
        } else {
            FunctionalUnit {
                result: None,
                operation: self.operation_next,
                op1: self.op1_next,
                op2: self.op2_next,
                addr: self.addr_next,
                rob_entry: self.rob_entry_next,
                cycles: latency(self.operation_next) as u32,
                operation_next: Op::Nop,
                ..self
            }
        }
    }

    /// The unit takes another operation now.
    pub open spec fn can_take(&self) -> bool {
        self.cycles <= 1 && self.operation_next == Op::Nop
    }

    pub fn new(fu_type: FUType) -> (r: FunctionalUnit)
        ensures
            r.wf(),
            r.idle(),
            r.fu_type == fu_type,
    {
        FunctionalUnit {
            fu_type,
            op1: 0,
            op2: 0,
            addr: 0,
            operation: Op::Nop,
            cycles: 0,
            result: None,
            rob_entry: 0,
            op1_next: 0,
            op2_next: 0,
            addr_next: 0,
            operation_next: Op::Nop,
            rob_entry_next: 0,
        }
    }

    /// Whether a unit of this kind performs `operation`.
    pub fn accepts_operation(&self, operation: Op) -> (r: bool)
        ensures
            r == accepts(self.fu_type, operation),
    {
        match self.fu_type {
            FUType::ALU => match operation {
                Op::Add | Op::And | Op::Or | Op::Sub | Op::Xor | Op::Mov | Op::Sl | Op::Sr => true,
                _ => false,
            },
            FUType::Multiplier => match operation {
                Op::Mult | Op::Div | Op::Mod => true,
                _ => false,
            },
            FUType::Branch => match operation {
                Op::J | Op::Beq | Op::Beqz | Op::Blt | Op::Bgt => true,
                _ => false,
            },
        }
    }

    /// Offers an operation to the unit. It is taken when the unit performs
    /// it and is in its last cycle (or idle) with nothing waiting: it starts
    /// at once on an idle unit, and otherwise waits as the next operation.
    pub fn dispatch(&mut self, o1: u32, o2: u32, operation: Op, rob_entry: usize, addr: usize) -> (r:
        bool)
        requires
            old(self).wf(),
            rob_entry < ROB_SIZE,
        ensures
            final(self).wf(),
            final(self).fu_type == old(self).fu_type,
            r == (accepts(old(self).fu_type, operation) && old(self).can_take()),
            !r ==> *final(self) == *old(self),
            r ==> *final(self) == old(self).accept(o1, o2, operation, rob_entry, addr),
            r && old(self).cycles == 0 && old(self).result is None ==> {
                &&& final(self).operation == operation
                &&& final(self).op1 == o1
                &&& final(self).op2 == o2
                &&& final(self).addr == addr
                &&& final(self).rob_entry == rob_entry
                &&& final(self).cycles == latency(operation)
                &&& final(self).result is None
                &&& final(self).operation_next == Op::Nop
            },
            r && !(old(self).cycles == 0 && old(self).result is None) ==> {
                &&& final(self).operation_next == operation
                &&& final(self).op1_next == o1
                &&& final(self).op2_next == o2
                &&& final(self).addr_next == addr
                &&& final(self).rob_entry_next == rob_entry
                &&& final(self).operation == old(self).operation
                &&& final(self).op1 == old(self).op1
                &&& final(self).op2 == old(self).op2
                &&& final(self).addr == old(self).addr
                &&& final(self).rob_entry == old(self).rob_entry
                &&& final(self).cycles == old(self).cycles
                &&& final(self).result == old(self).result
            },
    {
        if self.cycles > 1 {
            return false;
        }
        match self.operation_next {
            Op::Nop => {},
            _ => {
                return false;
            },
        }
        let correct_type = self.accepts_operation(operation);
        if correct_type {
            if self.cycles == 0 && self.result.is_none() {
                self.op1 = o1;
                self.op2 = o2;
                self.addr = addr;
                self.operation = operation;
                self.rob_entry = rob_entry;
                self.set_cycles();
            } else {
                self.op1_next = o1;
                self.op2_next = o2;
                self.addr_next = addr;
                self.operation_next = operation;
                self.rob_entry_next = rob_entry;
            }
        }
        correct_type
    }

    /// Starts the latency count of the current operation, when the unit
    /// performs it; otherwise leaves the count as it is.
    pub fn set_cycles(&mut self)
        ensures
            accepts(old(self).fu_type, old(self).operation) ==> final(self).cycles == latency(
                old(self).operation,
            ),
            !accepts(old(self).fu_type, old(self).operation) ==> final(self).cycles == old(
                self).cycles,
            *final(self) == (FunctionalUnit { cycles: final(self).cycles, ..*old(self) }),
    {
        if self.accepts_operation(self.operation) {
            self.cycles = match self.operation {
                Op::Mult => 2,
                Op::Div | Op::Mod => 3,
                _ => 1,
            };
        }
    }

    /// Advances the unit by one cycle. When the current operation finishes,
    /// its result is computed and held.
    pub fn cycle(&mut self)
        requires
            old(self).wf(),
        ensures
            final(self).wf(),
            *final(self) == old(self).after_cycle(),
            final(self).fu_type == old(self).fu_type,
            final(self).operation_next == old(self).operation_next,
            final(self).rob_entry_next == old(self).rob_entry_next,
            old(self).cycles == 0 ==> *final(self) == *old(self),
            old(self).cycles > 0 ==> final(self).cycles == old(self).cycles - 1,
            old(self).cycles > 1 ==> final(self).result is None,
            old(self).cycles == 1 ==> final(self).result == Some(
                (
                    old(self).rob_entry,
                    op_result(old(self).operation, old(self).op1, old(self).op2, old(self).addr),
                ),
            ),
    {
        if self.cycles > 0 {
            self.cycles = self.cycles - 1;
            if self.cycles == 0 {
                let res = compute(self.operation, self.op1, self.op2, self.addr);
                self.result = Some((self.rob_entry, res));
            }
        }
    }

    /// Nothing in progress and no result held.
    pub fn finished(&self) -> (r: bool)
        requires
            self.wf(),
        ensures
            r == self.idle(),
    {
        self.result.is_none() && self.cycles == 0
    }

    /// Takes the held result, as (result, reorder-buffer slot), and starts
    /// the waiting operation, if any.
    pub fn get_result(&mut self) -> (r: Option<(ExecResult, usize)>)
        requires
            old(self).wf(),
        ensures
            final(self).wf(),
            final(self).fu_type == old(self).fu_type,
            final(self).result is None,
            *final(self) == old(self).harvested(),
            old(self).result is None ==> r is None && *final(self) == *old(self),
            old(self).result matches Some(p) ==> {
                &&& r == Some((p.1, p.0))
                &&& final(self).operation_next == Op::Nop
                &&& old(self).operation_next == Op::Nop ==> final(self).idle()
                &&& old(self).operation_next != Op::Nop ==> {
                    &&& final(self).operation == old(self).operation_next
                    &&& final(self).op1 == old(self).op1_next
                    &&& final(self).op2 == old(self).op2_next
                    &&& final(self).addr == old(self).addr_next
                    &&& final(self).rob_entry == old(self).rob_entry_next
                    &&& final(self).cycles == latency(old(self).operation_next)
                }
            },
    {
        match self.result {
            None => None,
            Some((rob, x)) => {
                self.result = None;
                match self.operation_next {
                    Op::Nop => {},
                    _ => {
                        self.operation = self.operation_next;
                        self.op1 = self.op1_next;
                        self.op2 = self.op2_next;
                        self.addr = self.addr_next;
                        self.rob_entry = self.rob_entry_next;
                        self.set_cycles();
                        self.operation_next = Op::Nop;
                    },
                }
                Some((x, rob))
            },
        }
    }

    /// Abandons everything the unit holds.
    pub fn reset(&mut self)
        requires
            old(self).wf(),
        ensures
            final(self).wf(),
            final(self).idle(),
            final(self).fu_type == old(self).fu_type,
    {
        self.op1 = 0;
        self.op2 = 0;
        self.operation = Op::Nop;
        self.addr = 0;
        self.operation_next = Op::Nop;
        self.cycles = 0;
        self.result = None;
        self.rob_entry = 0;
    }
}

} // verus!
