//! The front end: the fetch unit, which walks the program, and the decode
//! queue between fetch and decode.

use vstd::prelude::*;

use crate::isa::{program_valid, registers_valid, EncodedInstruction};

verus! {

/// Walks the program from `pc`. After a misprediction `reset` makes the
/// next cycle a bubble.
#[derive(Debug)]
pub struct FetchUnit {
    pub pc: usize,
    pub instructions: Vec<EncodedInstruction>,
    pub reset: bool,
}

impl FetchUnit {
    pub open spec fn wf(&self) -> bool {
        program_valid(self.instructions@)
    }

    /// The instruction at `pc`, or `Halt` past the end of the program.
    pub open spec fn current(&self) -> EncodedInstruction {
        if self.pc < self.instructions@.len() {
            self.instructions@[self.pc as int]
        } else {
            EncodedInstruction::Halt
        }
    }

    pub fn new(encoded_instructions: Vec<EncodedInstruction>) -> (r: FetchUnit)
        ensures
            r.pc == 0,
            !r.reset,
            r.instructions@ == encoded_instructions@,
    {
        FetchUnit { pc: 0, instructions: encoded_instructions, reset: false }
    }

    /// The program counter has left the program.
    pub fn finished(&self) -> (r: bool)
        ensures
            r == (self.pc >= self.instructions@.len()),
    {
        self.pc >= self.instructions.len()
    }

    /// Redirects fetch to `new_pc`, after a bubble.
    pub fn mispredict(&mut self, new_pc: usize)
        ensures
            final(self).pc == new_pc,
            final(self).reset,
            final(self).instructions == old(self).instructions,
    {
        self.reset = true;
        self.pc = new_pc;
    }

    /// The instruction at `pc`; `Halt` once past the end of the program.
    pub fn get_instruction(&self) -> (r: EncodedInstruction)
        requires
            self.wf(),
        ensures
            r == self.current(),
            registers_valid(r),
            self.pc >= self.instructions@.len() ==> r == EncodedInstruction::Halt,
    {
        if self.pc < self.instructions.len() {
            self.instructions[self.pc]
        } else {
            EncodedInstruction::Halt
        }
    }
}

/// Fetched instructions, as (pc, instruction), oldest first. After a
/// misprediction `reset` makes the next decode a bubble.
#[derive(Debug)]
pub struct DecodeUnit {
    pub instruction_q: Vec<(usize, EncodedInstruction)>,
    pub reset: bool,
}

impl DecodeUnit {
    pub open spec fn wf(&self) -> bool {
        forall|i: int|
            0 <= i < self.instruction_q.len() ==> registers_valid(#[trigger] self.instruction_q@[i].1)
                && self.instruction_q@[i].0 < usize::MAX
    }

    pub fn new() -> (r: DecodeUnit)
        ensures
            r.wf(),
            r.instruction_q@.len() == 0,
            !r.reset,
    {
        DecodeUnit { instruction_q: Vec::new(), reset: false }
    }

    pub fn finished(&self) -> (r: bool)
        ensures
            r == (self.instruction_q@.len() == 0),
    {
        self.instruction_q.len() == 0
    }

    /// Drops the queued instructions and makes the next decode a bubble.
    pub fn reset(&mut self)
        ensures
            final(self).wf(),
            final(self).instruction_q@.len() == 0,
            final(self).reset,
    {
        self.clear_instructions();
        self.reset = true;
    }

    pub fn clear_instructions(&mut self)
        ensures
            final(self).wf(),
            final(self).instruction_q@.len() == 0,
            final(self).reset == old(self).reset,
    {
        self.instruction_q.clear();
    }

    /// Queues `instruction`, fetched at `pc`, at the back.
    pub fn add_instruction(&mut self, instruction: EncodedInstruction, pc: usize)
        requires
            old(self).wf(),
            registers_valid(instruction),
            pc < usize::MAX,
        ensures
            final(self).wf(),
            final(self).instruction_q@ == old(self).instruction_q@.push((pc, instruction)),
            final(self).reset == old(self).reset,
    {
        self.instruction_q.push((pc, instruction));
    }

    /// The oldest queued instruction.
    pub fn get_next_instruction(&self) -> (r: Option<(usize, EncodedInstruction)>)
        ensures
            r == if self.instruction_q@.len() > 0 {
                Some(self.instruction_q@[0])
            } else {
                None
            },
    {
        if self.instruction_q.len() > 0 {
            Some(self.instruction_q[0])
        } else {
            None
        }
    }

    /// Removes the oldest queued instruction.
    pub fn pop_instruction(&mut self)
        requires
            old(self).wf(),
        ensures
            final(self).wf(),
            final(self).instruction_q@ == if old(self).instruction_q@.len() > 0 {
                old(self).instruction_q@.drop_first()
            } else {
                old(self).instruction_q@
            },
            final(self).reset == old(self).reset,
    {
        if self.instruction_q.len() > 0 {
            self.instruction_q.remove(0);
            proof {
                assert(self.instruction_q@ =~= old(self).instruction_q@.drop_first());
            }
        }
    }
}

} // verus!
