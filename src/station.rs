//! Reservation stations: issued instructions waiting for their operands.

use vstd::prelude::*;

use crate::isa::{Op, Operand};
use crate::ROB_SIZE;

verus! {

/// The value an operand contributes once known; an absent operand counts
/// as zero.
pub open spec fn operand_value(o: Operand) -> u32 {
    match o {
        Operand::Value(v) => v,
        _ => 0,
    }
}

/// A tag, if any, names a reorder-buffer slot.
pub open spec fn operand_wf(o: Operand) -> bool {
    o matches Operand::Rob(k) ==> k < ROB_SIZE
}

/// `o` after the result `x` of slot `rob` has been broadcast.
pub open spec fn resolved(o: Operand, x: u32, rob: usize) -> Operand {
    if o == Operand::Rob(rob) {
        Operand::Value(x)
    } else {
        o
    }
}

/// Replaces a tag for slot `rob` by the value `x`.
pub fn resolve_operand(o: Operand, x: u32, rob: usize) -> (r: Operand)
    ensures
        r == resolved(o, x, rob),
{
    match o {
        Operand::Rob(k) => if k == rob {
            Operand::Value(x)
        } else {
            o
        },
        _ => o,
    }
}

/// One reservation station.
#[derive(Debug)]
pub struct ReservationStation {
    pub rob_entry: usize,
    pub o1: Operand,
    pub o2: Operand,
    /// Branch target, for branch operations.
    pub address: usize,
    pub operation: Op,
    pub busy: bool,
    /// Neither operand waits for a tag.
    pub ready: bool,
}

impl ReservationStation {
    /// `ready` says exactly whether both operands are free of tags; a free
    /// station holds no operands and no operation.
    pub open spec fn wf(&self) -> bool {
        &&& self.ready == (!(self.o1 is Rob) && !(self.o2 is Rob))
        &&& !self.busy ==> self.o1 == Operand::Empty && self.o2 == Operand::Empty
            && self.operation == Op::Nop
        &&& self.rob_entry < ROB_SIZE
        &&& operand_wf(self.o1)
        &&& operand_wf(self.o2)
    }

    pub fn new() -> (r: ReservationStation)
        ensures
            r.wf(),
            !r.busy,
    {
        ReservationStation {
            rob_entry: 0,
            o1: Operand::Empty,
            o2: Operand::Empty,
            address: 0,
            operation: Op::Nop,
            busy: false,
            ready: true,
        }
    }

    /// The operand values when neither waits for a tag.
    pub fn get_operands(&self) -> (r: Option<(u32, u32)>)
        ensures
            r is Some <==> !(self.o1 is Rob) && !(self.o2 is Rob),
            r matches Some(p) ==> p == (operand_value(self.o1), operand_value(self.o2)),
    {
        let x = match self.o1 {
            Operand::Value(x) => x,
            Operand::Empty => 0,
            Operand::Rob(_) => {
                return None;
            },
        };
        let y = match self.o2 {
            Operand::Value(y) => y,
            Operand::Empty => 0,
            Operand::Rob(_) => {
                return None;
            },
        };
        Some((x, y))
    }

    /// Installs a branch that jumps to `addr`.
    pub fn issue_branch(
        &mut self,
        operand1: Operand,
        operand2: Operand,
        operation: Op,
        rob_entry: usize,
        addr: usize,
    )
        requires
            rob_entry < ROB_SIZE,
            operand_wf(operand1),
            operand_wf(operand2),
        ensures
            final(self).wf(),
            final(self).busy,
            final(self).o1 == operand1,
            final(self).o2 == operand2,
            final(self).operation == operation,
            final(self).rob_entry == rob_entry,
            final(self).address == addr,
    {
        self.rob_entry = rob_entry;
        self.o1 = operand1;
        self.o2 = operand2;
        self.address = addr;
        self.operation = operation;
        self.ready = self.dependencies_resolved();
        self.busy = true;
    }

    /// Installs an instruction that produces a value.
    pub fn issue(&mut self, operand1: Operand, operand2: Operand, operation: Op, rob_entry: usize)
        requires
            rob_entry < ROB_SIZE,
            operand_wf(operand1),
            operand_wf(operand2),
        ensures
            final(self).wf(),
            final(self).busy,
            final(self).o1 == operand1,
            final(self).o2 == operand2,
            final(self).operation == operation,
            final(self).rob_entry == rob_entry,
            final(self).address == old(self).address,
    {
        self.rob_entry = rob_entry;
        self.o1 = operand1;
        self.o2 = operand2;
        self.operation = operation;
        self.ready = self.dependencies_resolved();
        self.busy = true;
    }

    /// The station after the value `x` of slot `rob` has been broadcast.
    pub open spec fn after_broadcast(self, x: u32, rob: usize) -> ReservationStation {
        let o1 = resolved(self.o1, x, rob);
        let o2 = resolved(self.o2, x, rob);
        ReservationStation { o1, o2, ready: !(o1 is Rob) && !(o2 is Rob), ..self }
    }

    /// A free station.
    pub open spec fn spec_free() -> ReservationStation {
        ReservationStation {
            rob_entry: 0,
            o1: Operand::Empty,
            o2: Operand::Empty,
            address: 0,
            operation: Op::Nop,
            busy: false,
            ready: true,
        }
    }

    /// Empties the station.
    pub fn free(&mut self)
        ensures
            final(self).wf(),
            !final(self).busy,
            *final(self) == ReservationStation::spec_free(),
    {
        self.rob_entry = 0;
        self.o1 = Operand::Empty;
        self.o2 = Operand::Empty;
        self.address = 0;
        self.operation = Op::Nop;
        self.busy = false;
        self.ready = self.dependencies_resolved();
    }

    /// Takes the broadcast value `x` of slot `rob_entry` into each operand
    /// that waits for it.
    pub fn resolve_dependency(&mut self, x: u32, rob_entry: usize)
        requires
            old(self).wf(),
        ensures
            final(self).wf(),
            *final(self) == old(self).after_broadcast(x, rob_entry),
            final(self).o1 == resolved(old(self).o1, x, rob_entry),
            final(self).o2 == resolved(old(self).o2, x, rob_entry),
            final(self).busy == old(self).busy,
            final(self).operation == old(self).operation,
            final(self).rob_entry == old(self).rob_entry,
            final(self).address == old(self).address,
    {
        self.o1 = resolve_operand(self.o1, x, rob_entry);
        self.o2 = resolve_operand(self.o2, x, rob_entry);
        self.ready = self.dependencies_resolved();
    }

    /// Neither operand waits for a tag.
    pub fn dependencies_resolved(&self) -> (r: bool)
        ensures
            r == (!(self.o1 is Rob) && !(self.o2 is Rob)),
    {
        match self.o1 {
            Operand::Rob(_) => false,
            _ => match self.o2 {
                Operand::Rob(_) => false,
                _ => true,
            },
        }
    }

    /// The station is free.
    pub fn finished(&self) -> (r: bool)
        ensures
            r == !self.busy,
    {
        !self.busy
    }
}

} // verus!
