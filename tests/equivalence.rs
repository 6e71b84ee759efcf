use superscalar::cpu::CPU;
use superscalar::isa::EncodedInstruction;
use superscalar::isa::EncodedInstruction::{
    Add, Addi, And, Andi, Beq, Beqz, Bgt, Blt, Div, Halt, Ldc, Lw, Mod, Mov, Mult, Noop, Or, Sl, Sr,
    Sub, Subi, Sw, Xor, J,
};
use superscalar::pipeline::{commit_one, decode, execute, fetch, writeback};
use superscalar::rob::Destination;
use superscalar::isa::ExecResult;
use superscalar::{COMMIT_WIDTH, MEM_SIZE, NUM_REGS};

fn seeded_memory() -> Vec<u32> {
    (0..MEM_SIZE).map(|i| (MEM_SIZE - i) as u32).collect()
}

/// Executes `program` one instruction at a time; returns the registers,
/// the memory and the register writes in order.
fn interpret(program: &[EncodedInstruction]) -> (Vec<u32>, Vec<u32>, Vec<(usize, u32)>) {
    let mut r = vec![0u32; NUM_REGS];
    let mut mem = seeded_memory();
    let mut writes = Vec::new();
    let mut pc = 0usize;
    let mut steps = 0;
    while pc < program.len() {
        steps += 1;
        assert!(steps < 100_000);
        let mut next = pc + 1;
        let mut write = |r: &mut Vec<u32>, d: usize, v: u32| {
            r[d] = v;
            writes.push((d, v));
        };
        match program[pc] {
            Noop => {}
            Halt => break,
            Add(d, s, t) => { let v = r[s].wrapping_add(r[t]); write(&mut r, d, v) }
            Addi(d, s, i) => { let v = r[s].wrapping_add(i); write(&mut r, d, v) }
            Sub(d, s, t) => { let v = r[s].wrapping_sub(r[t]); write(&mut r, d, v) }
            Subi(d, s, i) => { let v = r[s].wrapping_sub(i); write(&mut r, d, v) }
            And(d, s, t) => { let v = r[s] & r[t]; write(&mut r, d, v) }
            Andi(d, s, i) => { let v = r[s] & i; write(&mut r, d, v) }
            Or(d, s, t) => { let v = r[s] | r[t]; write(&mut r, d, v) }
            Xor(d, s, t) => { let v = r[s] ^ r[t]; write(&mut r, d, v) }
            Mult(d, s, t) => { let v = r[s].wrapping_mul(r[t]); write(&mut r, d, v) }
            Div(d, s, t) => { let v = if r[t] == 0 { 0 } else { r[s] / r[t] }; write(&mut r, d, v) }
            Mod(d, s, t) => { let v = if r[t] == 0 { 0 } else { r[s] % r[t] }; write(&mut r, d, v) }
            Sl(d, s, i) => { let v = r[s].wrapping_shl(i); write(&mut r, d, v) }
            Sr(d, s, i) => { let v = r[s].wrapping_shr(i); write(&mut r, d, v) }
            Mov(d, s) => { let v = r[s]; write(&mut r, d, v) }
            Ldc(d, i) => write(&mut r, d, i),
            Lw(a, d) => {
                let addr = r[a] as usize;
                let v = if addr < mem.len() { mem[addr] } else { 0 };
                write(&mut r, d, v)
            }
            Sw(a, s) => {
                let addr = r[a] as usize;
                if addr < mem.len() {
                    mem[addr] = r[s];
                }
            }
            J(t) => next = t,
            Beq(s, t, x) => if r[s] == r[t] { next = x },
            Beqz(s, x) => if r[s] == 0 { next = x },
            Blt(s, t, x) => if r[s] < r[t] { next = x },
            Bgt(s, t, x) => if r[s] > r[t] { next = x },
        }
        pc = next;
    }
    (r, mem, writes)
}

/// Runs `program` on the core, recording each register write as it
/// retires.
fn simulate(program: &[EncodedInstruction], pred_type: usize) -> (Vec<u32>, Vec<u32>, Vec<(usize, u32)>) {
    let mut cpu = CPU::new(program.to_vec(), pred_type);
    let mut mem = seeded_memory();
    let mut writes = Vec::new();
    let mut cycles = 0;
    loop {
        for _ in 0..COMMIT_WIDTH {
            let head = cpu.rob.buffer[cpu.rob.commit];
            let pending = match (head.dest, head.result) {
                (Destination::Register(d), Some(ExecResult::Value(v))) if !cpu.rob.is_empty() => Some((d, v)),
                _ => None,
            };
            if !commit_one(&mut cpu) {
                if let Some(w) = pending {
                    writes.push(w);
                }
                break;
            }
            if let Some(w) = pending {
                writes.push(w);
            }
        }
        writeback(&mut cpu);
        execute(&mut cpu, &mut mem);
        decode(&mut cpu);
        fetch(&mut cpu);
        cycles += 1;
        assert!(cycles < 200_000, "the simulation did not finish");
        if cpu.finished() {
            break;
        }
    }
    (cpu.registers.gprs.clone(), mem, writes)
}

fn same_as_interpreter(program: &[EncodedInstruction]) {
    let expected = interpret(program);
    for pred_type in 0..4 {
        let got = simulate(program, pred_type);
        assert_eq!(got.2, expected.2, "register writes, predictor {}", pred_type);
        assert_eq!(got.0, expected.0, "registers, predictor {}", pred_type);
        assert_eq!(got.1, expected.1, "memory, predictor {}", pred_type);
    }
}

#[test]
fn branch_free_program_matches_interpreter() {
    same_as_interpreter(&[
        Ldc(1, 7), Ldc(2, 3), Mult(3, 1, 2), Div(4, 3, 2), Mod(5, 3, 4), Sub(6, 2, 1), Sl(7, 6, 3),
        Sr(8, 7, 1), Xor(9, 8, 1), Or(10, 9, 2), And(11, 10, 1), Andi(12, 11, 5), Subi(13, 12, 9),
        Mov(14, 13), Addi(15, 14, 1), Sw(2, 15), Lw(2, 16), Add(17, 16, 1), Sw(16, 17), Lw(1, 18),
        Noop, Mult(19, 18, 18), Add(1, 1, 1), Add(1, 1, 1), Ldc(20, 60), Lw(20, 21), Sw(20, 1),
    ]);
}

#[test]
fn long_dependent_chain_matches_interpreter() {
    let mut program = vec![Ldc(1, 1)];
    for i in 0..80 {
        program.push(Mult(1, 1, 1));
        program.push(Addi(1, 1, i));
        program.push(Div(2, 1, 1));
        program.push(Sw(2, 1));
    }
    same_as_interpreter(&program);
}

#[test]
fn loops_and_branches_match_interpreter() {
    same_as_interpreter(&[
        Ldc(1, 0),       // 0: i
        Ldc(2, 6),       // 1: n
        Ldc(3, 0),       // 2: sum
        Add(3, 3, 1),    // 3: sum += i
        Beqz(1, 7),      // 4
        Sw(1, 3),        // 5: memory[i] = sum
        Bgt(1, 2, 99),   // 6: never taken
        Addi(1, 1, 1),   // 7
        Blt(1, 2, 3),    // 8: loop
        Beq(1, 2, 11),   // 9: taken
        Ldc(7, 99),      // 10: skipped
        J(13),           // 11
        Ldc(8, 98),      // 12: skipped
        Lw(2, 9),        // 13: r9 = memory[6]
        Ldc(4, 3),       // 14
        Subi(4, 4, 1),   // 15
        Lw(4, 10),       // 16
        Bgt(4, 0, 15),   // 17: count down
        Add(11, 9, 10),  // 18
    ]);
}

#[test]
fn nested_loops_match_interpreter() {
    same_as_interpreter(&[
        Ldc(1, 0),      // 0: i
        Ldc(5, 4),      // 1
        Ldc(2, 0),      // 2: j
        Mult(6, 1, 2),  // 3
        Add(7, 7, 6),   // 4
        Addi(2, 2, 1),  // 5
        Blt(2, 1, 3),   // 6
        Addi(1, 1, 1),  // 7
        Blt(1, 5, 2),   // 8
        Sw(1, 7),       // 9
    ]);
}
