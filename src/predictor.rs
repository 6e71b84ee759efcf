//! The branch predictor: a table of saturating counters (branch history
//! table) and a table of recorded predictions (branch target buffer), both
//! indexed by the low bits of the branch's program counter.
//!
//! Predicting only reads the counters and records the prediction; the
//! counters move only when a branch is resolved at commit, once per
//! resolved branch.

use vstd::prelude::*;

use crate::isa::EncodedInstruction;
use crate::MAX_PREDICTIONS;

verus! {

/// Table index of the branch at `pc`.
pub open spec fn table_index(pc: usize) -> int {
    pc as int % (MAX_PREDICTIONS as int)
}

/// The largest value of a `pred_type`-bit counter.
pub open spec fn counter_max(pred_type: usize) -> u32 {
    ((1u32 << (pred_type as u32)) - 1) as u32
}

/// Whether `inst` is a conditional branch, and its target if so.
pub open spec fn conditional_target(inst: EncodedInstruction) -> Option<usize> {
    match inst {
        EncodedInstruction::Beq(_, _, t) | EncodedInstruction::Bgt(_, _, t)
        | EncodedInstruction::Blt(_, _, t) | EncodedInstruction::Beqz(_, t) => Some(t),
        _ => None,
    }
}

/// One step of a `pred_type`-bit saturating counter, up or down.
pub open spec fn counter_step(counter: u32, up: bool, pred_type: usize) -> u32 {
    if up {
        if counter == counter_max(pred_type) {
            counter
        } else {
            (counter + 1) as u32
        }
    } else {
        if counter == 0 {
            counter
        } else {
            (counter - 1) as u32
        }
    }
}

/// Adds one to a statistic, stopping at the largest value.
pub open spec fn bumped(n: u64) -> u64 {
    if n < u64::MAX {
        (n + 1) as u64
    } else {
        n
    }
}

#[derive(Debug)]
pub struct BranchPredictor {
    pub bht: Vec<u32>,
    /// (predicted next pc, predicted taken) of the last prediction made at
    /// each index.
    pub btb: Vec<(usize, bool)>,
    pub total_predictions: u64,
    pub total_correct: u64,
    /// 0 for static prediction, otherwise the counters' width in bits.
    pub pred_type: usize,
}

impl BranchPredictor {
    pub open spec fn wf(&self) -> bool {
        &&& self.bht.len() == MAX_PREDICTIONS
        &&& self.btb.len() == MAX_PREDICTIONS
        &&& self.pred_type < 32
        &&& self.total_correct <= self.total_predictions
        &&& forall|i: int|
            0 <= i < MAX_PREDICTIONS ==> #[trigger] self.bht@[i] <= counter_max(self.pred_type)
    }

    /// The prediction (next pc, taken) for `inst` at `pc`: a jump goes to its
    /// target; a conditional branch is predicted taken only by a dynamic
    /// predictor whose counter is above the middle of its range; anything
    /// else falls through.
    pub open spec fn prediction(&self, inst: EncodedInstruction, pc: usize) -> (usize, bool) {
        match inst {
            EncodedInstruction::J(t) => (t, true),
            _ => match conditional_target(inst) {
                Some(t) => if self.pred_type >= 1 && self.bht@[table_index(pc)] > counter_max(
                    self.pred_type,
                ) / 2 {
                    (t, true)
                } else {
                    ((pc + 1) as usize, false)
                },
                None => ((pc + 1) as usize, false),
            },
        }
    }

    /// A predictor of the given type with no history: every recorded
    /// prediction is (0, not taken), and every counter starts at 0, except
    /// that 2-bit counters start weakly taken (2).
    pub fn new(pred_type: usize) -> (r: BranchPredictor)
        requires
            pred_type < 32,
        ensures
            r.wf(),
            r.pred_type == pred_type,
            r.total_predictions == 0,
            r.total_correct == 0,
            forall|i: int| 0 <= i < MAX_PREDICTIONS ==> #[trigger] r.btb@[i] == (0usize, false),
            forall|i: int|
                0 <= i < MAX_PREDICTIONS ==> #[trigger] r.bht@[i] == if pred_type == 2 {
                    2u32
                } else {
                    0u32
                },
    {
        let init: u32 = if pred_type == 2 {
            2
        } else {
            0
        };
        proof {
            let p = pred_type as u32;
            assert(p < 32 ==> (1u32 << p) >= 1) by (bit_vector);
            assert(p >= 2 && p < 32 ==> (1u32 << p) >= 4) by (bit_vector);
        }
        let mut bht: Vec<u32> = Vec::new();
        let mut btb: Vec<(usize, bool)> = Vec::new();
        let mut i: usize = 0;
        while i < MAX_PREDICTIONS
            invariant
                i <= MAX_PREDICTIONS,
                bht.len() == i,
                btb.len() == i,
                init <= counter_max(pred_type),
                forall|k: int| 0 <= k < i ==> #[trigger] bht@[k] == init,
                forall|k: int| 0 <= k < i ==> #[trigger] btb@[k] == (0usize, false),
                init == if pred_type == 2 {
                    2u32
                } else {
                    0u32
                },
            decreases MAX_PREDICTIONS - i,
        {
            bht.push(init);
            btb.push((0, false));
            i = i + 1;
        }
        BranchPredictor { bht, btb, total_predictions: 0, total_correct: 0, pred_type }
    }

    /// The largest counter value.
    fn max_counter(&self) -> (r: u32)
        requires
            self.pred_type < 32,
        ensures
            r == counter_max(self.pred_type),
    {
        let p = self.pred_type as u32;
        proof {
            assert(p < 32 ==> (1u32 << p) >= 1) by (bit_vector);
        }
        (1u32 << p) - 1
    }

    /// Predicts the pc that follows `instruction` at `pc`, and records the
    /// prediction in the target buffer.
    pub fn predict(&mut self, instruction: EncodedInstruction, pc: usize) -> (r: usize)
        requires
            old(self).wf(),
            pc < usize::MAX,
        ensures
            final(self).wf(),
            r == old(self).prediction(instruction, pc).0,
            final(self).btb@ == old(self).btb@.update(
                table_index(pc),
                old(self).prediction(instruction, pc),
            ),
            final(self).bht@ == old(self).bht@,
            final(self).pred_type == old(self).pred_type,
            final(self).total_predictions == old(self).total_predictions,
            final(self).total_correct == old(self).total_correct,
    {
        let index = pc % MAX_PREDICTIONS;
        match instruction {
            EncodedInstruction::J(address) => {
                self.btb[index] = (address, true);
                address
            },
            EncodedInstruction::Beq(_, _, inst) | EncodedInstruction::Bgt(_, _, inst)
            | EncodedInstruction::Blt(_, _, inst) | EncodedInstruction::Beqz(_, inst) => {
                self.make_prediction(index, inst, pc)
            },
            _ => {
                self.btb[index] = (pc + 1, false);
                pc + 1
            },
        }
    }

    /// Predicts a conditional branch at `pc` to `inst`, whose table index
    /// is `entry`, and records the prediction.
    pub fn make_prediction(&mut self, entry: usize, inst: usize, pc: usize) -> (r: usize)
        requires
            old(self).wf(),
            pc < usize::MAX,
            entry < MAX_PREDICTIONS,
        ensures
            final(self).wf(),
            ({
                let taken = old(self).pred_type >= 1 && old(self).bht@[entry as int] > counter_max(
                    old(self).pred_type,
                ) / 2;
                let p: (usize, bool) = if taken {
                    (inst, true)
                } else {
                    ((pc + 1) as usize, false)
                };
                &&& r == p.0
                &&& final(self).btb@ == old(self).btb@.update(entry as int, p)
            }),
            final(self).bht@ == old(self).bht@,
            final(self).pred_type == old(self).pred_type,
            final(self).total_predictions == old(self).total_predictions,
            final(self).total_correct == old(self).total_correct,
    {
        if self.pred_type == 0 {
            self.btb[entry] = (pc + 1, false);
            pc + 1
        } else {
            let max = self.max_counter();
            if self.bht[entry] <= max / 2 {
                self.btb[entry] = (pc + 1, false);
                pc + 1
            } else {
                self.btb[entry] = (inst, true);
                inst
            }
        }
    }

    /// Resolves the prediction recorded for the branch at `pc`, which
    /// actually went to `taken_pc`: counts it, and moves the counter toward
    /// the actual outcome. Returns whether the prediction was correct.
    pub fn prediction_correct(&mut self, taken_pc: usize, pc: usize) -> (r: bool)
        requires
            old(self).wf(),
        ensures
            final(self).wf(),
            ({
                let entry = old(self).btb@[table_index(pc)];
                let correct = entry.0 == taken_pc;
                &&& r == correct
                &&& final(self).total_predictions == bumped(old(self).total_predictions)
                &&& final(self).total_correct == if correct {
                    bumped(old(self).total_correct)
                } else {
                    old(self).total_correct
                }
                &&& final(self).bht@ == if old(self).pred_type >= 1 {
                    old(self).bht@.update(
                        table_index(pc),
                        counter_step(
                            old(self).bht@[table_index(pc)],
                            correct == entry.1,
                            old(self).pred_type,
                        ),
                    )
                } else {
                    old(self).bht@
                }
            }),
            final(self).btb@ == old(self).btb@,
            final(self).pred_type == old(self).pred_type,
    {
        self.total_predictions = self.total_predictions.saturating_add(1);
        let entry = pc % MAX_PREDICTIONS;
        let (predicted_pc, predicted_branch_taken) = self.btb[entry];
        let correct = predicted_pc == taken_pc;
        if self.pred_type >= 1 {
            let max = self.max_counter();
            let counter = self.bht[entry];
            let up = correct == predicted_branch_taken;
            if up {
                if counter != max {
                    self.bht[entry] = counter + 1;
                }
            } else {
                if counter != 0 {
                    self.bht[entry] = counter - 1;
                }
            }
        }
        if correct {
            self.total_correct = self.total_correct.saturating_add(1);
        }
        correct
    }
}

/// With static prediction, an instruction other than a jump is predicted to
/// fall through; so when such an instruction at `pc` does fall through, the
/// prediction recorded for it is found correct. On a program with no jumps
/// whose branches all fall through, every resolved prediction is correct.
pub proof fn static_fall_through_is_correct(
    bp: BranchPredictor,
    inst: EncodedInstruction,
    pc: usize,
)
    requires
        bp.wf(),
        bp.pred_type == 0,
        !(inst is J),
        pc < usize::MAX,
    ensures
        bp.prediction(inst, pc) == ((pc + 1) as usize, false),
        bp.btb@.update(table_index(pc), bp.prediction(inst, pc))[table_index(pc)].0 == pc + 1,
{
}

} // verus!
