use superscalar::isa::{compute, EncodedInstruction, ExecResult, FUType, Op, Operand};
use superscalar::lsq::{LSQEntry, LSQOp, MemoryUnit, LSQ};
use superscalar::predictor::BranchPredictor;
use superscalar::rob::{ReorderBuffer, ReorderBufferResult, Registers};
use superscalar::station::ReservationStation;
use superscalar::unit::FunctionalUnit;
use superscalar::frontend::{DecodeUnit, FetchUnit};
use superscalar::{MEM_LATENCY, ROB_SIZE};

#[test]
fn operations_wrap_and_divide_safely() {
    assert_eq!(compute(Op::Add, u32::MAX, 2, 0), ExecResult::Value(1));
    assert_eq!(compute(Op::Sub, 1, 2, 0), ExecResult::Value(u32::MAX));
    assert_eq!(compute(Op::Mult, 0x1_0000, 0x1_0000, 0), ExecResult::Value(0));
    assert_eq!(compute(Op::Div, 7, 0, 0), ExecResult::Value(0));
    assert_eq!(compute(Op::Mod, 7, 0, 0), ExecResult::Value(0));
    assert_eq!(compute(Op::Div, 7, 2, 0), ExecResult::Value(3));
    assert_eq!(compute(Op::Mod, 7, 2, 0), ExecResult::Value(1));
    assert_eq!(compute(Op::Sl, 1, 33, 0), ExecResult::Value(2));
    assert_eq!(compute(Op::Sr, 8, 35, 0), ExecResult::Value(1));
    assert_eq!(compute(Op::Xor, 6, 3, 0), ExecResult::Value(5));
    assert_eq!(compute(Op::Mov, 9, 3, 0), ExecResult::Value(9));
    assert_eq!(compute(Op::J, 0, 0, 5), ExecResult::BranchTaken(5));
    assert_eq!(compute(Op::Beq, 2, 2, 5), ExecResult::BranchTaken(5));
    assert_eq!(compute(Op::Beq, 2, 3, 5), ExecResult::BranchNotTaken);
    assert_eq!(compute(Op::Beqz, 0, 9, 5), ExecResult::BranchTaken(5));
    assert_eq!(compute(Op::Blt, 2, 3, 5), ExecResult::BranchTaken(5));
    assert_eq!(compute(Op::Blt, 3, 3, 5), ExecResult::BranchNotTaken);
    assert_eq!(compute(Op::Bgt, 4, 3, 5), ExecResult::BranchTaken(5));
    assert_eq!(compute(Op::Bgt, 3, 4, 5), ExecResult::BranchNotTaken);
}

#[test]
fn reorder_buffer_full_then_unblocked() {
    let mut rob = ReorderBuffer::new();
    let mut slots = Vec::new();
    for _ in 0..ROB_SIZE - 1 {
        slots.push(rob.commit_to(3).expect("a free slot"));
    }
    assert_eq!(rob.commit_to(4), None);
    assert_eq!(rob.get_commit(), ReorderBufferResult::Waiting);
    rob.insert(slots[0], ExecResult::Value(42));
    assert_eq!(rob.get_commit(), ReorderBufferResult::Writeback(42, slots[0], 3));
    assert_eq!(rob.instructions_committed, 1);
    assert!(rob.commit_to(4).is_some());
}

#[test]
fn reorder_buffer_retires_in_order_and_ignores_misfit_results() {
    let mut rob = ReorderBuffer::new();
    let a = rob.commit_to_branch(7).unwrap();
    let b = rob.commit_to_store().unwrap();
    let c = rob.commit_to(2).unwrap();
    rob.insert(c, ExecResult::Value(1));
    rob.insert(a, ExecResult::Value(5));
    assert_eq!(rob.get_commit(), ReorderBufferResult::Waiting);
    rob.insert(a, ExecResult::BranchNotTaken);
    assert_eq!(rob.get_commit(), ReorderBufferResult::BranchNotTaken(7));
    assert_eq!(rob.get_commit(), ReorderBufferResult::Store(b));
    assert_eq!(rob.get_commit(), ReorderBufferResult::Writeback(1, c, 2));
    assert!(rob.is_empty());
    rob.empty();
    assert_eq!((rob.commit, rob.issue), (0, 0));
}

#[test]
fn register_rename_cleared_only_by_its_producer() {
    let mut regs = Registers::new();
    regs.set_owner(5, 3);
    regs.write_result(11, 2, 5);
    assert_eq!(regs.gprs[5], 11);
    assert_eq!(regs.rat[5], Some(3));
    regs.write_result(12, 3, 5);
    assert_eq!(regs.gprs[5], 12);
    assert_eq!(regs.rat[5], None);
    regs.set_owner(1, 4);
    regs.clear_rat();
    assert!(regs.rat.iter().all(|r| r.is_none()));
}

#[test]
fn station_readiness_follows_tags() {
    let mut rs = ReservationStation::new();
    assert!(rs.finished());
    rs.issue(Operand::Rob(4), Operand::Value(2), Op::Add, 6);
    assert!(!rs.ready);
    assert_eq!(rs.get_operands(), None);
    rs.resolve_dependency(9, 3);
    assert!(!rs.ready);
    rs.resolve_dependency(9, 4);
    assert!(rs.ready);
    assert_eq!(rs.get_operands(), Some((9, 2)));
    rs.free();
    assert!(rs.finished());
    rs.issue_branch(Operand::Empty, Operand::Empty, Op::J, 1, 30);
    assert_eq!(rs.get_operands(), Some((0, 0)));
    assert_eq!(rs.address, 30);
}

#[test]
fn functional_unit_pipelines_one_deep() {
    let mut fu = FunctionalUnit::new(FUType::Multiplier);
    assert!(!fu.dispatch(1, 2, Op::Add, 0, 0));
    assert!(fu.dispatch(6, 7, Op::Mult, 1, 0));
    assert_eq!(fu.cycles, 2);
    assert!(!fu.dispatch(1, 1, Op::Div, 2, 0));
    fu.cycle();
    assert!(fu.dispatch(9, 0, Op::Div, 2, 0));
    assert!(!fu.dispatch(9, 3, Op::Mod, 3, 0));
    fu.cycle();
    assert_eq!(fu.cycles, 0);
    assert_eq!(fu.result, Some((1, ExecResult::Value(42))));
    assert_eq!(fu.get_result(), Some((ExecResult::Value(42), 1)));
    assert_eq!(fu.cycles, 3);
    fu.cycle();
    fu.cycle();
    assert!(fu.result.is_none());
    fu.cycle();
    assert_eq!(fu.get_result(), Some((ExecResult::Value(0), 2)));
    assert!(fu.finished());
    fu.dispatch(1, 1, Op::Mult, 4, 0);
    fu.reset();
    assert!(fu.finished());
}

#[test]
fn load_store_queue_keeps_order_and_committed_stores() {
    let mut q = LSQ::new();
    q.issue(LSQOp::S, 0, 1, Operand::Value(5), Operand::Rob(0));
    q.issue(LSQOp::L, 1, 2, Operand::Value(5), Operand::Empty);
    q.issue(LSQOp::S, 2, 3, Operand::Value(6), Operand::Value(1));
    assert_eq!(q.get_next_instruction(), None);
    q.resolve_dependency(77, 0);
    assert_eq!(q.lsq[0].value, Operand::Value(77));
    assert_eq!(q.get_next_instruction(), None);
    q.committed(1);
    assert!(q.lsq[0].committed && !q.lsq[1].committed);
    let mut kept = LSQ::new();
    kept.lsq = q.lsq.clone();
    kept.clear();
    assert_eq!(kept.lsq.len(), 1);
    assert_eq!(kept.lsq[0].rob_entry, 1);
    let first = q.get_next_instruction().unwrap();
    assert_eq!(first.rob_entry, 1);
    assert_eq!(q.get_next_instruction().unwrap().op, LSQOp::L);
    assert_eq!(q.get_next_instruction(), None);
    assert!(!q.finished());
}

#[test]
fn memory_unit_writes_only_committed_stores() {
    let mut memory = vec![0u32; 8];
    let mut mu = MemoryUnit::new();
    let mut store = LSQEntry::new(LSQOp::S, 0, 3, Operand::Value(2), Operand::Value(9));
    store.committed = true;
    assert!(mu.dispatch(store));
    assert!(!mu.dispatch(store));
    for _ in 0..MEM_LATENCY - 1 {
        mu.cycle(&mut memory);
        assert_eq!(memory[2], 0);
    }
    mu.cycle(&mut memory);
    assert_eq!(memory[2], 9);
    assert!(mu.finished());
    assert_eq!(mu.get_result(), None);
    let load = LSQEntry::new(LSQOp::L, 1, 4, Operand::Value(2), Operand::Empty);
    assert!(mu.dispatch(load));
    mu.cycle(&mut memory);
    mu.cycle(&mut memory);
    assert_eq!(mu.get_result(), Some((4, ExecResult::Value(9))));
    let far = LSQEntry::new(LSQOp::L, 1, 5, Operand::Value(100), Operand::Empty);
    assert!(mu.dispatch(far));
    mu.reset();
    assert!(mu.finished());
    assert!(mu.dispatch(far));
    mu.cycle(&mut memory);
    mu.cycle(&mut memory);
    assert_eq!(mu.get_result(), Some((5, ExecResult::Value(0))));
}

#[test]
fn predictor_counters_saturate() {
    let mut bp = BranchPredictor::new(2);
    assert_eq!(bp.bht[3], 2);
    assert_eq!(bp.btb[3], (0, false));
    let beq = EncodedInstruction::Beq(1, 2, 40);
    assert_eq!(bp.predict(beq, 3), 40);
    assert!(bp.prediction_correct(40, 3));
    assert_eq!(bp.bht[3], 3);
    assert_eq!(bp.predict(beq, 3), 40);
    assert!(bp.prediction_correct(40, 3));
    assert_eq!(bp.bht[3], 3);
    assert_eq!(bp.predict(beq, 3), 40);
    assert!(!bp.prediction_correct(4, 3));
    assert_eq!(bp.bht[3], 2);
    assert_eq!(bp.predict(beq, 3), 40);
    assert!(!bp.prediction_correct(4, 3));
    assert_eq!(bp.bht[3], 1);
    assert_eq!(bp.predict(beq, 3), 4);
    assert!(!bp.prediction_correct(40, 3));
    assert_eq!(bp.bht[3], 2);
    assert_eq!((bp.total_predictions, bp.total_correct), (5, 2));
    assert_eq!(bp.predict(EncodedInstruction::J(9), 1027), 9);
    assert_eq!(bp.btb[3], (9, true));
    assert_eq!(bp.predict(EncodedInstruction::Noop, 5), 6);
    let one_bit = BranchPredictor::new(1);
    assert_eq!(one_bit.bht[0], 0);
}

#[test]
fn static_predictor_falls_through() {
    let mut bp = BranchPredictor::new(0);
    assert_eq!(bp.predict(EncodedInstruction::Blt(1, 2, 0), 8), 9);
    assert!(bp.prediction_correct(9, 8));
    assert_eq!(bp.predict(EncodedInstruction::Bgt(1, 2, 0), 8), 9);
    assert!(!bp.prediction_correct(0, 8));
    assert_eq!((bp.total_predictions, bp.total_correct), (2, 1));
    assert_eq!(bp.bht[8], 0);
}

#[test]
fn fetch_yields_halt_past_the_end() {
    let mut fu = FetchUnit::new(vec![EncodedInstruction::Noop]);
    assert_eq!(fu.get_instruction(), EncodedInstruction::Noop);
    assert!(!fu.finished());
    fu.mispredict(5);
    assert!(fu.reset);
    assert_eq!(fu.get_instruction(), EncodedInstruction::Halt);
    assert!(fu.finished());
    let mut du = DecodeUnit::new();
    du.add_instruction(EncodedInstruction::Noop, 0);
    du.add_instruction(EncodedInstruction::J(1), 1);
    assert_eq!(du.get_next_instruction(), Some((0, EncodedInstruction::Noop)));
    du.pop_instruction();
    assert_eq!(du.get_next_instruction(), Some((1, EncodedInstruction::J(1))));
    du.reset();
    assert!(du.finished() && du.reset);
}
