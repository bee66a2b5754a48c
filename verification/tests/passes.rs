use abys::codegen::{drop_removable, migrate_labels, peephole};
use abys::machine::{Machine, StepEffect, Trap};
use abys::opcode::{Codes, Label, LabeledOpCode, OpCode, Register};
use abys::value::Value;

fn same_ops(a: &[LabeledOpCode], b: &[LabeledOpCode]) -> bool {
    a.len() == b.len()
        && a.iter()
            .zip(b.iter())
            .all(|(x, y)| x.code == y.code && x.labels == y.labels)
}

#[test]
fn peephole_rewrites_push_pop_pairs() {
    let mut ops = vec![
        LabeledOpCode::without_label(OpCode::Push(Register::R1)),
        LabeledOpCode::without_label(OpCode::Pop(Register::R2)),
        LabeledOpCode::without_label(OpCode::Push(Register::R3)),
        LabeledOpCode::without_label(OpCode::Pop(Register::R3)),
    ];
    peephole(&mut ops);
    assert_eq!(ops[0].code, OpCode::Mov(Register::R1, Register::R2));
    assert_eq!(ops[1].code, OpCode::Nop);
    assert_eq!(ops[2].code, OpCode::Nop);
    assert_eq!(ops[3].code, OpCode::Nop);
}

#[test]
fn peephole_skips_labeled_pop() {
    let mut ops = vec![
        LabeledOpCode::without_label(OpCode::Push(Register::R1)),
        LabeledOpCode::with_one_label(Label(0), OpCode::Pop(Register::R2)),
    ];
    peephole(&mut ops);
    assert_eq!(ops[0].code, OpCode::Push(Register::R1));
    assert_eq!(ops[1].code, OpCode::Pop(Register::R2));
}

#[test]
fn peephole_twice_equals_once() {
    let sample = vec![
        LabeledOpCode::without_label(OpCode::Push(Register::R1)),
        LabeledOpCode::without_label(OpCode::Pop(Register::R1)),
        LabeledOpCode::without_label(OpCode::Push(Register::R2)),
        LabeledOpCode::with_one_label(Label(7), OpCode::Pop(Register::R3)),
        LabeledOpCode::without_label(OpCode::Push(Register::R2)),
        LabeledOpCode::without_label(OpCode::Pop(Register::R3)),
        LabeledOpCode::without_label(OpCode::Ret),
    ];
    let mut once: Vec<LabeledOpCode> = sample.iter().map(clone_op).collect();
    peephole(&mut once);
    let mut twice: Vec<LabeledOpCode> = once.iter().map(clone_op).collect();
    peephole(&mut twice);
    assert!(same_ops(&once, &twice));
}

fn clone_op(op: &LabeledOpCode) -> LabeledOpCode {
    LabeledOpCode { labels: op.labels.clone(), code: op.code }
}

#[test]
fn migration_moves_labels_forward() {
    let ops = vec![
        LabeledOpCode::with_one_label(Label(3), OpCode::Nop),
        LabeledOpCode::without_label(OpCode::Ret),
    ];
    let out = migrate_labels(&ops);
    assert_eq!(out[0].code, OpCode::Nop);
    assert!(out[0].labels.is_empty());
    assert_eq!(out[1].code, OpCode::Ret);
    assert_eq!(out[1].labels, vec![Label(3)]);
    // the trailing anchor carries nothing here
    assert_eq!(out[2].code, OpCode::Nop);
    assert!(out[2].labels.is_empty());
}

#[test]
fn migration_idempotent_over_cleanup() {
    // Re-running migration over already-migrated, cleaned code moves nothing.
    let ops = vec![
        LabeledOpCode::with_one_label(Label(0), OpCode::Nop),
        LabeledOpCode::without_label(OpCode::PutByte(Register::R1)),
        LabeledOpCode::with_one_label(Label(1), OpCode::Ret),
    ];
    let cleaned = drop_removable(&migrate_labels(&ops));
    let again = drop_removable(&migrate_labels(&cleaned));
    assert!(same_ops(&cleaned, &again));
}

#[test]
fn cleanup_drops_bare_anchors() {
    let ops = vec![
        LabeledOpCode::without_label(OpCode::Nop),
        LabeledOpCode::without_label(OpCode::Alloc(0)),
        LabeledOpCode::without_label(OpCode::Free(0)),
        LabeledOpCode::without_label(OpCode::Alloc(2)),
        LabeledOpCode::with_one_label(Label(1), OpCode::Free(0)),
    ];
    let out = drop_removable(&ops);
    assert_eq!(out.len(), 2);
    assert_eq!(out[0].code, OpCode::Alloc(2));
    assert_eq!(out[1].code, OpCode::Free(0));
}

fn codes(ops: Vec<OpCode>) -> Codes {
    Codes { entry_point: 0, opcodes: ops }
}

#[test]
fn machine_traps_are_reported() {
    let c = codes(vec![OpCode::Pop(Register::R1)]);
    let mut m = Machine::new(0);
    assert_eq!(m.step(&c), StepEffect::Trapped(Trap::StackUnderflow));

    let c = codes(vec![OpCode::Nop]);
    let mut m = Machine::new(0);
    assert_eq!(m.step(&c), StepEffect::Trapped(Trap::PseudoOpcode));

    let c = codes(vec![OpCode::Exit]);
    let mut m = Machine::new(7);
    assert_eq!(m.step(&c), StepEffect::Trapped(Trap::BadInstructionPointer));

    let c = codes(vec![
        OpCode::LoadInt(1, Register::R1),
        OpCode::DivInt(Register::R1, Register::R2, Register::R3),
    ]);
    let mut m = Machine::new(0);
    assert_eq!(m.step(&c), StepEffect::Advanced);
    assert_eq!(m.step(&c), StepEffect::Trapped(Trap::DivisionByZero));
}

#[test]
fn integer_arithmetic_wraps() {
    let c = codes(vec![
        OpCode::LoadInt(i64::MAX, Register::R1),
        OpCode::LoadInt(1, Register::R2),
        OpCode::AddInt(Register::R1, Register::R2, Register::R3),
        OpCode::LoadInt(i64::MIN, Register::R1),
        OpCode::LoadInt(-1, Register::R2),
        OpCode::DivInt(Register::R1, Register::R2, Register::RAX),
    ]);
    let mut m = Machine::new(0);
    for _ in 0..6 {
        assert_eq!(m.step(&c), StepEffect::Advanced);
    }
    assert_eq!(m.regs.r3, Value::from_i64(i64::MIN));
    assert_eq!(m.regs.rax, Value::from_i64(i64::MIN));
}

#[test]
fn shifts_mask_their_count() {
    let c = codes(vec![
        OpCode::LoadInt(1, Register::R1),
        OpCode::LoadInt(65, Register::R2),
        OpCode::Shl(Register::R1, Register::R2, Register::R3),
        OpCode::LoadInt(-8, Register::R1),
        OpCode::LoadInt(1, Register::R2),
        OpCode::Shr(Register::R1, Register::R2, Register::RAX),
    ]);
    let mut m = Machine::new(0);
    for _ in 0..6 {
        assert_eq!(m.step(&c), StepEffect::Advanced);
    }
    // 1 << 65 masks to 1 << 1; -8 >> 1 is arithmetic.
    assert_eq!(m.regs.r3, Value::from_i64(2));
    assert_eq!(m.regs.rax, Value::from_i64(-4));
}

#[test]
fn unsigned_shift_zero_fills() {
    let c = codes(vec![
        OpCode::LoadInt(-1, Register::R1),
        OpCode::LoadInt(56, Register::R2),
        OpCode::ShrUnsigned(Register::R1, Register::R2, Register::R3),
    ]);
    let mut m = Machine::new(0);
    for _ in 0..3 {
        assert_eq!(m.step(&c), StepEffect::Advanced);
    }
    assert_eq!(m.regs.r3, Value::from_i64(255));
}
