//! The instruction set, the operations that functional units perform, and
//! the values that travel through the pipeline.

use vstd::prelude::*;

use crate::NUM_REGS;

verus! {

/// An instruction of a program, with register indices, immediates and
/// branch targets already decoded.
#[derive(Clone, Copy, Debug, PartialEq, Eq, Structural)]
pub enum EncodedInstruction {
    Noop,
    Halt,
    Add(usize, usize, usize),
    Addi(usize, usize, u32),
    And(usize, usize, usize),
    Andi(usize, usize, u32),
    Beq(usize, usize, usize),
    Beqz(usize, usize),
    Bgt(usize, usize, usize),
    Blt(usize, usize, usize),
    Div(usize, usize, usize),
    J(usize),
    Ldc(usize, u32),
    Lw(usize, usize),
    Mod(usize, usize, usize),
    Mov(usize, usize),
    Mult(usize, usize, usize),
    Or(usize, usize, usize),
    Sl(usize, usize, u32),
    Sr(usize, usize, u32),
    Sw(usize, usize),
    Sub(usize, usize, usize),
    Subi(usize, usize, u32),
    Xor(usize, usize, usize),
}

/// Every register index that the instruction names is an architectural
/// register.
pub open spec fn registers_valid(inst: EncodedInstruction) -> bool {
    let n = NUM_REGS;
    match inst {
        EncodedInstruction::Noop | EncodedInstruction::Halt | EncodedInstruction::J(_) => true,
        EncodedInstruction::Add(d, s, t) | EncodedInstruction::And(d, s, t)
        | EncodedInstruction::Div(d, s, t) | EncodedInstruction::Mod(d, s, t)
        | EncodedInstruction::Mult(d, s, t) | EncodedInstruction::Or(d, s, t)
        | EncodedInstruction::Sub(d, s, t) | EncodedInstruction::Xor(d, s, t) => d < n && s < n
            && t < n,
        EncodedInstruction::Addi(d, s, _) | EncodedInstruction::Andi(d, s, _)
        | EncodedInstruction::Sl(d, s, _) | EncodedInstruction::Sr(d, s, _)
        | EncodedInstruction::Subi(d, s, _) => d < n && s < n,
        EncodedInstruction::Beq(s, t, _) | EncodedInstruction::Bgt(s, t, _)
        | EncodedInstruction::Blt(s, t, _) => s < n && t < n,
        EncodedInstruction::Beqz(s, _) => s < n,
        EncodedInstruction::Ldc(d, _) => d < n,
        EncodedInstruction::Lw(a, d) | EncodedInstruction::Sw(a, d) | EncodedInstruction::Mov(
            a,
            d,
        ) => a < n && d < n,
    }
}

/// Every instruction of the program names architectural registers only.
pub open spec fn program_valid(program: Seq<EncodedInstruction>) -> bool {
    forall|i: int| 0 <= i < program.len() ==> #[trigger] registers_valid(program[i])
}

/// Whether every register index that `inst` names is an architectural
/// register.
pub fn registers_in_range(inst: EncodedInstruction) -> (r: bool)
    ensures
        r == registers_valid(inst),
{
    let n = NUM_REGS;
    match inst {
        EncodedInstruction::Noop | EncodedInstruction::Halt | EncodedInstruction::J(_) => true,
        EncodedInstruction::Add(d, s, t) | EncodedInstruction::And(d, s, t)
        | EncodedInstruction::Div(d, s, t) | EncodedInstruction::Mod(d, s, t)
        | EncodedInstruction::Mult(d, s, t) | EncodedInstruction::Or(d, s, t)
        | EncodedInstruction::Sub(d, s, t) | EncodedInstruction::Xor(d, s, t) => d < n && s < n
            && t < n,
        EncodedInstruction::Addi(d, s, _) | EncodedInstruction::Andi(d, s, _)
        | EncodedInstruction::Sl(d, s, _) | EncodedInstruction::Sr(d, s, _)
        | EncodedInstruction::Subi(d, s, _) => d < n && s < n,
        EncodedInstruction::Beq(s, t, _) | EncodedInstruction::Bgt(s, t, _)
        | EncodedInstruction::Blt(s, t, _) => s < n && t < n,
        EncodedInstruction::Beqz(s, _) => s < n,
        EncodedInstruction::Ldc(d, _) => d < n,
        EncodedInstruction::Lw(a, d) | EncodedInstruction::Sw(a, d) | EncodedInstruction::Mov(
            a,
            d,
        ) => a < n && d < n,
    }
}

/// Whether every instruction of `program` names architectural registers
/// only; `CPU::new` asks for it.
pub fn valid_program(program: &Vec<EncodedInstruction>) -> (r: bool)
    ensures
        r == program_valid(program@),
{
    let mut i: usize = 0;
    while i < program.len()
        invariant
            i <= program@.len(),
            forall|j: int| 0 <= j < i ==> #[trigger] registers_valid(program@[j]),
        decreases program@.len() - i,
    {
        if !registers_in_range(program[i]) {
            return false;
        }
        i = i + 1;
    }
    true
}

/// An operation held by a reservation station or a functional unit.
#[derive(Clone, Copy, Debug, PartialEq, Eq, Structural)]
pub enum Op {
    Nop,
    Add,
    And,
    Or,
    Sub,
    Xor,
    Mov,
    Sr,
    Sl,
    Mult,
    Div,
    Mod,
    J,
    Beq,
    Beqz,
    Blt,
    Bgt,
}

/// A source operand: a known value, a tag naming the reorder-buffer entry
/// that will produce it, or no operand at all.
#[derive(Clone, Copy, Debug, PartialEq, Eq, Structural)]
pub enum Operand {
    Value(u32),
    Rob(usize),
    Empty,
}

/// What an executed instruction hands to the reorder buffer.
#[derive(Clone, Copy, Debug, PartialEq, Eq, Structural)]
pub enum ExecResult {
    Value(u32),
    BranchTaken(usize),
    BranchNotTaken,
    Store,
}

/// The kinds of functional unit.
#[derive(Clone, Copy, Debug, PartialEq, Eq, Structural)]
pub enum FUType {
    Multiplier,
    ALU,
    Branch,
}

/// Whether a unit of the given kind performs the operation.
pub open spec fn accepts(fu_type: FUType, op: Op) -> bool {
    match fu_type {
        FUType::ALU => matches!(op, Op::Add | Op::And | Op::Or | Op::Sub | Op::Xor | Op::Mov | Op::Sl | Op::Sr),
        FUType::Multiplier => matches!(op, Op::Mult | Op::Div | Op::Mod),
        FUType::Branch => matches!(op, Op::J | Op::Beq | Op::Beqz | Op::Blt | Op::Bgt),
    }
}

/// Cycles an operation takes in its unit.
pub open spec fn latency(op: Op) -> int {
    match op {
        Op::Mult => 2,
        Op::Div | Op::Mod => 3,
        Op::Nop => 0,
        _ => 1,
    }
}

/// The result of performing `op` on the operands `a` and `b`; `target` is
/// the destination of a branch. Arithmetic wraps at 32 bits, shifts use the
/// low five bits of `b`, and division or remainder by zero gives zero.
pub open spec fn op_result(op: Op, a: u32, b: u32, target: usize) -> ExecResult {
    match op {
        Op::Add => ExecResult::Value(vstd::wrapping::u32_specs::wrapping_add(a, b)),
        Op::Sub => ExecResult::Value(vstd::wrapping::u32_specs::wrapping_sub(a, b)),
        Op::And => ExecResult::Value(a & b),
        Op::Or => ExecResult::Value(a | b),
        Op::Xor => ExecResult::Value(a ^ b),
        Op::Mov => ExecResult::Value(a),
        Op::Sl => ExecResult::Value(a << (b % 32)),
        Op::Sr => ExecResult::Value(a >> (b % 32)),
        Op::Mult => ExecResult::Value(((a as nat * b as nat) % 0x1_0000_0000) as u32),
        Op::Div => ExecResult::Value(if b == 0 { 0 } else { a / b }),
        Op::Mod => ExecResult::Value(if b == 0 { 0 } else { a % b }),
        Op::J => ExecResult::BranchTaken(target),
        Op::Beq => if a == b { ExecResult::BranchTaken(target) } else { ExecResult::BranchNotTaken },
        Op::Beqz => if a == 0 { ExecResult::BranchTaken(target) } else { ExecResult::BranchNotTaken },
        Op::Blt => if a < b { ExecResult::BranchTaken(target) } else { ExecResult::BranchNotTaken },
        Op::Bgt => if a > b { ExecResult::BranchTaken(target) } else { ExecResult::BranchNotTaken },
        Op::Nop => ExecResult::Value(0),
    }
}

/// Performs `op` on `a` and `b`.
pub fn compute(op: Op, a: u32, b: u32, target: usize) -> (r: ExecResult)
    ensures
        r == op_result(op, a, b, target),
{
    match op {
        Op::Add => ExecResult::Value(a.wrapping_add(b)),
        Op::Sub => ExecResult::Value(a.wrapping_sub(b)),
        Op::And => ExecResult::Value(a & b),
        Op::Or => ExecResult::Value(a | b),
        Op::Xor => ExecResult::Value(a ^ b),
        Op::Mov => ExecResult::Value(a),
        Op::Sl => ExecResult::Value(a.wrapping_shl(b)),
        Op::Sr => ExecResult::Value(a.wrapping_shr(b)),
        Op::Mult => ExecResult::Value(a.wrapping_mul(b)),
        Op::Div => ExecResult::Value(if b == 0 { 0 } else { a / b }),
        Op::Mod => ExecResult::Value(if b == 0 { 0 } else { a % b }),
        Op::J => ExecResult::BranchTaken(target),
        Op::Beq => if a == b { ExecResult::BranchTaken(target) } else { ExecResult::BranchNotTaken },
        Op::Beqz => if a == 0 { ExecResult::BranchTaken(target) } else { ExecResult::BranchNotTaken },
        Op::Blt => if a < b { ExecResult::BranchTaken(target) } else { ExecResult::BranchNotTaken },
        Op::Bgt => if a > b { ExecResult::BranchTaken(target) } else { ExecResult::BranchNotTaken },
        Op::Nop => ExecResult::Value(0),
    }
}

} // verus!
