use superscalar::cpu::CPU;
use superscalar::isa::{EncodedInstruction, Operand};
use superscalar::lsq::LSQOp;
use superscalar::rob::ReorderBuffer;
use superscalar::{MEM_SIZE, NUM_REGS, ROB_SIZE};

use EncodedInstruction::{
    Add, Addi, And, Andi, Beq, Beqz, Bgt, Blt, Div, Ldc, Lw, Mod, Mov, Mult, Noop, Or, Sl, Sr, Sub, Subi, Sw,
    Xor, J,
};

fn seeded_memory() -> Vec<u32> {
    (0..MEM_SIZE).map(|i| (MEM_SIZE - i) as u32).collect()
}

fn in_window(rob: &ReorderBuffer, k: usize) -> bool {
    let occupancy = (rob.issue + ROB_SIZE - rob.commit) % ROB_SIZE;
    k < ROB_SIZE && (k + ROB_SIZE - rob.commit) % ROB_SIZE < occupancy
}

fn check_invariants(cpu: &CPU) {
    for r in 0..NUM_REGS {
        if let Some(k) = cpu.registers.rat[r] {
            assert!(in_window(&cpu.rob, k), "rename of r{} to {} outside the window", r, k);
        }
    }
    for st in &cpu.exec_unit.rs_sts {
        let no_tags = !matches!(st.o1, Operand::Rob(_)) && !matches!(st.o2, Operand::Rob(_));
        assert_eq!(st.ready, no_tags);
    }
    for fu in &cpu.exec_unit.func_units {
        if fu.cycles > 0 {
            assert!(fu.result.is_none());
        }
    }
    let pending = |o: Operand| match o {
        Operand::Rob(k) => in_window(&cpu.rob, k) && cpu.rob.buffer[k].result.is_none(),
        _ => true,
    };
    for st in &cpu.exec_unit.rs_sts {
        assert!(pending(st.o1) && pending(st.o2));
    }
    for e in &cpu.lsq.lsq {
        assert!(pending(e.addr) && pending(e.value));
        if e.committed && e.op == LSQOp::S {
            assert!(!matches!(e.addr, Operand::Rob(_)) && !matches!(e.value, Operand::Rob(_)));
        }
    }
}

/// Runs `program` to completion; returns the core, memory and cycle count.
fn run(program: Vec<EncodedInstruction>, pred_type: usize) -> (CPU, Vec<u32>, u64) {
    let mut cpu = CPU::new(program, pred_type);
    let mut memory = seeded_memory();
    let mut cycles: u64 = 0;
    loop {
        cpu.cycle(&mut memory);
        check_invariants(&cpu);
        cycles += 1;
        if cpu.finished() {
            break;
        }
        assert!(cycles < 100_000, "the simulation did not finish");
    }
    (cpu, memory, cycles)
}

#[test]
fn straight_line_program() {
    let (cpu, _, cycles) = run(vec![Ldc(1, 10), Ldc(2, 20), Add(3, 1, 2)], 0);
    assert_eq!(&cpu.registers.gprs[1..4], &[10, 20, 30]);
    assert_eq!(cpu.rob.instructions_committed, 3);
    assert!(cycles > 0);
    assert!(cpu.rob.instructions_committed as f64 / cycles as f64 > 0.0);
}

#[test]
fn data_dependency() {
    let (cpu, _, _) = run(vec![Ldc(1, 5), Ldc(2, 7), Mult(3, 1, 2), Add(4, 3, 1)], 0);
    assert_eq!(cpu.registers.gprs[3], 35);
    assert_eq!(cpu.registers.gprs[4], 40);
    assert_eq!(cpu.rob.instructions_committed, 4);
}

#[test]
fn backward_branch_loop() {
    let program = vec![Ldc(1, 0), Ldc(2, 10), Addi(1, 1, 1), Blt(1, 2, 2), Add(3, 1, 2)];
    let (cpu, _, _) = run(program, 2);
    assert_eq!(cpu.registers.gprs[1], 10);
    assert_eq!(cpu.registers.gprs[3], 20);
    assert_eq!(cpu.branch_predictor.total_predictions, 10);
    println!("correct: {}", cpu.branch_predictor.total_correct);
    assert!(cpu.branch_predictor.total_correct >= 9);
}

#[test]
fn memory_round_trip() {
    let (cpu, memory, _) = run(vec![Ldc(1, 100), Ldc(2, 5), Sw(2, 1), Lw(2, 3)], 0);
    assert_eq!(memory[5], 100);
    assert_eq!(cpu.registers.gprs[3], 100);
}

#[test]
fn jump_skips_writes() {
    let mut program = vec![J(10)];
    for v in 1..10u32 {
        program.push(Ldc(7, v));
    }
    program.push(Ldc(1, 1));
    for pred in 0..3 {
        let (cpu, _, _) = run(program.clone(), pred);
        assert_eq!(cpu.registers.gprs[7], 0);
        assert_eq!(cpu.registers.gprs[1], 1);
    }
}

#[test]
fn divide_by_zero_gives_zero() {
    let (cpu, _, _) = run(vec![Ldc(1, 10), Ldc(2, 0), Div(3, 1, 2), Mod(4, 1, 2), Addi(5, 3, 1)], 0);
    assert_eq!(cpu.registers.gprs[3], 0);
    assert_eq!(cpu.registers.gprs[4], 0);
    assert_eq!(cpu.registers.gprs[5], 1);
}

#[test]
fn static_prediction_of_fall_through_branches() {
    let program = vec![
        Ldc(1, 1),
        Beqz(1, 0),
        Ldc(2, 2),
        Beq(1, 2, 0),
        Blt(2, 1, 0),
        Bgt(1, 2, 0),
        Add(3, 1, 2),
    ];
    let (cpu, _, _) = run(program, 0);
    assert_eq!(cpu.branch_predictor.total_predictions, 4);
    assert_eq!(cpu.branch_predictor.total_correct, 4);
    assert_eq!(cpu.registers.gprs[3], 3);
}

#[test]
fn misprediction_squashes_wrong_path() {
    let program = vec![Ldc(1, 0), Beqz(1, 4), Ldc(7, 5), Ldc(8, 6), Ldc(9, 7)];
    let (cpu, _, _) = run(program, 0);
    assert_eq!(cpu.registers.gprs[7], 0);
    assert_eq!(cpu.registers.gprs[8], 0);
    assert_eq!(cpu.registers.gprs[9], 7);
    assert_eq!(cpu.branch_predictor.total_predictions, 1);
    assert_eq!(cpu.branch_predictor.total_correct, 0);
}

#[test]
fn empty_program_finishes() {
    let (cpu, memory, cycles) = run(vec![], 0);
    assert_eq!(cycles, 1);
    assert_eq!(cpu.rob.instructions_committed, 0);
    assert_eq!(memory, seeded_memory());
}

#[test]
fn full_reorder_buffer_does_not_deadlock() {
    let mut program = vec![Ldc(1, 3), Ldc(2, 4)];
    for _ in 0..(3 * ROB_SIZE) {
        program.push(Div(3, 1, 2));
        program.push(Mult(3, 3, 1));
    }
    program.push(Add(4, 3, 1));
    let (cpu, _, _) = run(program.clone(), 0);
    assert_eq!(cpu.rob.instructions_committed, program.len() as u64);
    assert_eq!(cpu.registers.gprs[4], 3);
}

#[test]
fn every_operation_through_the_pipeline() {
    let program = vec![
        Ldc(1, 12),
        Ldc(2, 10),
        Add(3, 1, 2),
        Sub(4, 2, 1),
        And(5, 1, 2),
        Or(6, 1, 2),
        Xor(7, 1, 2),
        Mult(8, 1, 2),
        Div(9, 1, 2),
        Mod(10, 1, 2),
        Addi(11, 1, 5),
        Subi(12, 1, 13),
        Andi(13, 1, 4),
        Sl(14, 1, 33),
        Sr(15, 1, 2),
        Mov(16, 1),
        Noop,
    ];
    let (cpu, _, _) = run(program, 0);
    let g = &cpu.registers.gprs;
    assert_eq!(g[3], 22);
    assert_eq!(g[4], 10u32.wrapping_sub(12));
    assert_eq!(g[5], 8);
    assert_eq!(g[6], 14);
    assert_eq!(g[7], 6);
    assert_eq!(g[8], 120);
    assert_eq!(g[9], 1);
    assert_eq!(g[10], 2);
    assert_eq!(g[11], 17);
    assert_eq!(g[12], u32::MAX);
    assert_eq!(g[13], 4);
    assert_eq!(g[14], 24);
    assert_eq!(g[15], 3);
    assert_eq!(g[16], 12);
    assert_eq!(cpu.rob.instructions_committed, 16);
}

#[test]
fn squash_keeps_retired_stores() {
    let program = vec![
        Ldc(1, 7),
        Ldc(2, 3),
        Sw(2, 1),
        Beqz(0, 7),
        Ldc(5, 1),
        Sw(2, 5),
        Ldc(6, 1),
        Lw(2, 4),
    ];
    let (cpu, memory, _) = run(program, 0);
    assert_eq!(memory[3], 7);
    assert_eq!(cpu.registers.gprs[4], 7);
    assert_eq!(cpu.registers.gprs[5], 0);
    assert_eq!(cpu.registers.gprs[6], 0);
    assert_eq!(cpu.branch_predictor.total_correct, 0);
}

#[test]
fn reset_drops_speculative_state_only() {
    let mut cpu = CPU::new(vec![Ldc(1, 1), Sw(1, 1), Lw(1, 2), Sw(1, 2)], 0);
    cpu.decode_unit.add_instruction(Ldc(1, 1), 0);
    let a = cpu.rob.commit_to_store().unwrap();
    let b = cpu.rob.commit_to(2).unwrap();
    let c = cpu.rob.commit_to_store().unwrap();
    cpu.registers.set_owner(2, b);
    cpu.lsq.issue(LSQOp::S, 1, a, Operand::Value(1), Operand::Value(1));
    cpu.lsq.issue(LSQOp::L, 2, b, Operand::Value(1), Operand::Empty);
    cpu.lsq.issue(LSQOp::S, 3, c, Operand::Value(1), Operand::Rob(b));
    cpu.lsq.committed(a);
    cpu.exec_unit.issue(Operand::Value(1), Operand::Empty, superscalar::isa::Op::Mov, 0, b);
    cpu.registers.gprs[9] = 5;
    cpu.reset();
    assert!(cpu.rob.is_empty());
    assert!(cpu.registers.rat.iter().all(|r| r.is_none()));
    assert_eq!(cpu.registers.gprs[9], 5);
    assert!(cpu.exec_unit.rs_sts.iter().all(|st| !st.busy));
    assert!(cpu.decode_unit.finished() && cpu.decode_unit.reset);
    assert_eq!(cpu.lsq.lsq.len(), 1);
    assert_eq!(cpu.lsq.lsq[0].rob_entry, a);
    assert!(cpu.lsq.lsq[0].committed);
}
