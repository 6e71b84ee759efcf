//! A cycle-level simulator of a speculative, out-of-order superscalar core
//! with register renaming, reservation stations, a reorder buffer, a
//! load/store queue and a branch predictor.

use vstd::prelude::*;

pub mod isa;
pub mod rob;
pub mod station;
pub mod unit;
pub mod lsq;
pub mod predictor;
pub mod frontend;
pub mod cpu;
pub mod pipeline;
pub mod assembler;

verus! {

/// Number of architectural registers.
pub const NUM_REGS: usize = 32;

/// Number of reorder-buffer slots.
pub const ROB_SIZE: usize = 32;

/// Words of data memory that the simulator's driver seeds.
pub const MEM_SIZE: usize = 52;

/// Number of reservation stations.
pub const NUM_RS: usize = 16;

/// Number of arithmetic/logic units.
pub const NUM_ALUS: usize = 4;

/// Number of multiply/divide units.
pub const NUM_MULTS: usize = 4;

/// Number of branch units.
pub const NUM_BRANCH_UNITS: usize = 2;

/// Entries of the branch history table and of the branch target buffer.
pub const MAX_PREDICTIONS: usize = 1024;

/// Instructions fetched per cycle.
pub const FETCH_WIDTH: usize = 5;

/// Instructions decoded per cycle.
pub const DECODE_WIDTH: usize = 5;

/// Reorder-buffer entries retired per cycle.
pub const COMMIT_WIDTH: usize = 5;

/// Cycles a memory access takes.
pub const MEM_LATENCY: u32 = 2;

} // verus!
