use vstd::prelude::*;

use crate::ast::{Expression, FunctionData};
use crate::codegen::{binop_tail, emit_args, emit_expr, generate_model, load_pair, resolve_op,
    FuncSig};
use crate::machine::{step_spec, MachineModel, StepEffect};
use crate::opcode::{LabeledOpModel, OpCode, Register};
use crate::value::Value;

verus! {

// ------------------------------------------------------------------
// Peephole preservation
// ------------------------------------------------------------------

/// Peephole preservation, the unequal-register window: executing
/// `Push a; Pop b` from any state leaves the same registers, stack and frame
/// pointer as executing `Mov a b` — the pushed value comes straight back off
/// the stack — with the instruction pointer past the pair in the first case
/// and past the single move in the second. This is what entitles the
/// peephole pass to rewrite the pair.
pub proof fn lemma_peephole_window_mov(
    code1: Seq<OpCode>,
    code2: Seq<OpCode>,
    m: MachineModel,
    a: Register,
    b: Register,
)
    requires
        0 <= m.rip,
        m.rip + 1 < code1.len(),
        code1[m.rip] == OpCode::Push(a),
        code1[m.rip + 1] == OpCode::Pop(b),
        m.rip < code2.len(),
        code2[m.rip] == OpCode::Mov(a, b),
    ensures
        ({
            let (m1, e1) = step_spec(code1, m);
            let (m2, e2) = step_spec(code1, m1);
            let (mv, ev) = step_spec(code2, m);
            &&& e1 == StepEffect::Advanced
            &&& e2 == StepEffect::Advanced
            &&& ev == StepEffect::Advanced
            &&& m2 == (MachineModel { rip: m.rip + 2, ..mv })
            &&& mv == (MachineModel {
                regs: m.regs.write_spec(b, m.regs.read_spec(a)),
                rip: m.rip + 1,
                ..m
            })
        }),
{
    let (m1, e1) = step_spec(code1, m);
    assert(m1.stack.len() == m.stack.len() + 1);
    let (m2, e2) = step_spec(code1, m1);
    assert(m1.stack.drop_last() =~= m.stack);
    assert(m2 =~= (MachineModel {
        regs: m.regs.write_spec(b, m.regs.read_spec(a)),
        rip: m.rip + 2,
        ..m
    }));
}

/// Peephole preservation, the equal-register window: executing
/// `Push r; Pop r` from any state changes nothing but the instruction
/// pointer, so the pass may drop the pair altogether.
pub proof fn lemma_peephole_window_same(code: Seq<OpCode>, m: MachineModel, r: Register)
    requires
        0 <= m.rip,
        m.rip + 1 < code.len(),
        code[m.rip] == OpCode::Push(r),
        code[m.rip + 1] == OpCode::Pop(r),
    ensures
        ({
            let (m1, e1) = step_spec(code, m);
            let (m2, e2) = step_spec(code, m1);
            &&& e1 == StepEffect::Advanced
            &&& e2 == StepEffect::Advanced
            &&& m2 == (MachineModel { rip: m.rip + 2, ..m })
        }),
{
    let (m1, e1) = step_spec(code, m);
    assert(m1.stack.len() == m.stack.len() + 1);
    let (m2, e2) = step_spec(code, m1);
    assert(m1.stack.drop_last() =~= m.stack);
    assert(m2.regs =~= m.regs) by {
        assert(m.regs.write_spec(r, m.regs.read_spec(r)) =~= m.regs);
    }
    assert(m2 =~= (MachineModel { rip: m.rip + 2, ..m }));
}

// ------------------------------------------------------------------
// Frame discipline
// ------------------------------------------------------------------

/// Frame discipline: take the state `entry` in which a function's prologue
/// executes — the caller's values, the pushed arguments and the return
/// address are on the stack. The prologue pushes the old frame pointer and
/// points `rbp` just past it. In any later state of that call that has kept
/// the frame pointer and the stack below it, the epilogue truncates the
/// stack back to exactly the length it had at entry — the arguments have not
/// been freed — and restores the caller's frame pointer; the `Ret` that
/// follows then consumes the return address, which is the value on top of
/// the stack at entry.
#[verifier::rlimit(100)]
pub proof fn lemma_frame_discipline(code: Seq<OpCode>, entry: MachineModel, body: MachineModel)
    requires
        0 <= entry.rip < code.len(),
        code[entry.rip] == OpCode::PushRbpAndMovEspToEbp,
        0 <= entry.rbp <= i64::MAX as int,
        entry.rbp <= usize::MAX as int,
        ({
            let after_prologue = step_spec(code, entry).0;
            &&& body.rbp == after_prologue.rbp
            &&& body.stack.len() >= body.rbp
            &&& body.stack.take(body.rbp as int) == after_prologue.stack
        }),
        0 <= body.rip < code.len(),
        code[body.rip] == OpCode::MovEbpToEspAndPopRbp,
        body.rip + 1 < code.len(),
        code[body.rip + 1] == OpCode::Ret,
        entry.stack.len() > 0,
    ensures
        ({
            let unwound = step_spec(code, body).0;
            let returned = step_spec(code, unwound).0;
            &&& step_spec(code, body).1 == StepEffect::Advanced
            &&& step_spec(code, unwound).1 == StepEffect::Advanced
            &&& unwound.stack.len() == entry.stack.len()
            &&& unwound.stack == entry.stack
            &&& unwound.rbp == entry.rbp
            &&& returned.stack == entry.stack.drop_last()
            &&& returned.rip == (entry.stack.last().0 as usize) as int
        }),
{
    let after_prologue = step_spec(code, entry).0;
    assert(after_prologue.stack == entry.stack.push(Value((entry.rbp as i64))));
    assert(after_prologue.rbp == entry.stack.len() + 1);
    let unwound = step_spec(code, body).0;
    assert(body.stack.take(body.rbp - 1) =~= entry.stack) by {
        assert(body.stack.take(body.rbp as int).take(body.rbp - 1) =~= body.stack.take(
            body.rbp - 1,
        ));
        assert(after_prologue.stack.take(body.rbp - 1) =~= entry.stack);
    }
    assert(body.stack[body.rbp - 1] == Value((entry.rbp as i64))) by {
        assert(body.stack.take(body.rbp as int).last() == body.stack[body.rbp - 1]);
    }
    assert(((entry.rbp as i64) as usize) as int == entry.rbp);
    assert(unwound.rbp == entry.rbp);
    let returned = step_spec(code, unwound).0;
    assert(returned.stack == entry.stack.drop_last());
}

// ------------------------------------------------------------------
// Re-resolution is a no-op
// ------------------------------------------------------------------

/// A finished image holds no symbolic jump or call: resolution rewrote every
/// one of them to its absolute form.
pub proof fn lemma_no_symbolic_in_image(funcs: Seq<FunctionData>, k: int)
    requires
        0 <= k < generate_model(funcs).1.len(),
    ensures
        !generate_model(funcs).1[k].is_symbolic(),
{
}

/// Re-resolving an already-resolved opcode changes nothing, whatever table
/// and addresses the second pass would use: the rewrite only touches the
/// symbolic forms, and the first pass left none.
pub proof fn lemma_resolution_idempotent(
    c: OpCode,
    flat1: Seq<LabeledOpModel>,
    nlabels1: int,
    addrs1: Seq<usize>,
    flat2: Seq<LabeledOpModel>,
    nlabels2: int,
    addrs2: Seq<usize>,
)
    ensures
        resolve_op(resolve_op(c, flat1, nlabels1, addrs1), flat2, nlabels2, addrs2) == resolve_op(
            c,
            flat1,
            nlabels1,
            addrs1,
        ),
{
}

/// Re-resolving a whole finished image is the identity, position by
/// position.
pub proof fn lemma_image_resolution_idempotent(
    funcs: Seq<FunctionData>,
    flat2: Seq<LabeledOpModel>,
    nlabels2: int,
    addrs2: Seq<usize>,
    k: int,
)
    requires
        0 <= k < generate_model(funcs).1.len(),
    ensures
        resolve_op(generate_model(funcs).1[k], flat2, nlabels2, addrs2) == generate_model(
            funcs,
        ).1[k],
{
}

} // verus!

verus! {

broadcast use vstd::std_specs::vec::group_vec_axioms;

// ------------------------------------------------------------------
// Stack balance
// ------------------------------------------------------------------

/// How one opcode moves the stack length, where that is fixed by the opcode
/// alone. A symbolic call counts as zero: by the calling convention — see
/// [`lemma_frame_discipline`] — the callee returns with the argument stack
/// exactly as the caller left it. The frame and control-transfer opcodes
/// have no fixed effect and yield `None`.
pub open spec fn op_stack_delta(c: OpCode) -> Option<int> {
    match c {
        OpCode::Push(_) => Some(1int),
        OpCode::Pop(_) => Some(-1int),
        OpCode::Alloc(n) => Some(n as int),
        OpCode::Free(n) => Some(-(n as int)),
        OpCode::FnCall(_) => Some(0int),
        OpCode::Ret => None,
        OpCode::Exit => None,
        OpCode::PushRbpAndMovEspToEbp => None,
        OpCode::MovEbpToEspAndPopRbp => None,
        OpCode::JmpAddr(_) => None,
        OpCode::JmpAddrIfZero(_, _) => None,
        OpCode::FunctionCall(_) => None,
        _ => Some(0int),
    }
}

/// The net stack effect of a straight run of instructions, `None` if any of
/// them has no fixed effect.
pub open spec fn seq_stack_delta(s: Seq<LabeledOpModel>) -> Option<int>
    decreases s,
{
    if s.len() == 0 {
        Some(0int)
    } else {
        match (seq_stack_delta(s.drop_last()), op_stack_delta(s.last().code)) {
            (Some(x), Some(y)) => Some(x + y),
            _ => None,
        }
    }
}

proof fn lemma_delta_concat(a: Seq<LabeledOpModel>, b: Seq<LabeledOpModel>)
    ensures
        seq_stack_delta(a + b) == (match (seq_stack_delta(a), seq_stack_delta(b)) {
            (Some(x), Some(y)) => Some(x + y),
            _ => None::<int>,
        }),
    decreases b,
{
    if b.len() == 0 {
        assert(a + b =~= a);
    } else {
        assert((a + b).drop_last() =~= a + b.drop_last());
        lemma_delta_concat(a, b.drop_last());
    }
}

proof fn lemma_load_pair_delta(c: OpCode)
    requires
        op_stack_delta(c) == Some(0int),
    ensures
        seq_stack_delta(load_pair(c)) == Some(1int),
{
    reveal_with_fuel(seq_stack_delta, 3);
    assert(load_pair(c).drop_last() =~= seq![crate::codegen::unlabeled(c)]);
    assert(seq![crate::codegen::unlabeled(c)].drop_last() =~= Seq::<LabeledOpModel>::empty());
}

proof fn lemma_binop_tail_delta(c: OpCode)
    requires
        op_stack_delta(c) == Some(0int),
    ensures
        seq_stack_delta(binop_tail(c)) == Some(-1int),
{
    reveal_with_fuel(seq_stack_delta, 5);
    let s = binop_tail(c);
    assert(s.drop_last() =~= seq![
        crate::codegen::unlabeled(OpCode::Pop(Register::R2)),
        crate::codegen::unlabeled(OpCode::Pop(Register::R1)),
        crate::codegen::unlabeled(c),
    ]);
    assert(s.drop_last().drop_last() =~= seq![
        crate::codegen::unlabeled(OpCode::Pop(Register::R2)),
        crate::codegen::unlabeled(OpCode::Pop(Register::R1)),
    ]);
    assert(s.drop_last().drop_last().drop_last() =~= seq![
        crate::codegen::unlabeled(OpCode::Pop(Register::R2)),
    ]);
    assert(s.drop_last().drop_last().drop_last().drop_last() =~= Seq::<LabeledOpModel>::empty());
}

/// A run of three: pop the operand, apply, push the result.
proof fn lemma_unop_tail_delta(c: OpCode, src: Register, dst: Register)
    requires
        op_stack_delta(c) == Some(0int),
    ensures
        seq_stack_delta(
            seq![
                crate::codegen::unlabeled(OpCode::Pop(src)),
                crate::codegen::unlabeled(c),
                crate::codegen::unlabeled(OpCode::Push(dst)),
            ],
        ) == Some(0int),
{
    reveal_with_fuel(seq_stack_delta, 4);
    let s = seq![
        crate::codegen::unlabeled(OpCode::Pop(src)),
        crate::codegen::unlabeled(c),
        crate::codegen::unlabeled(OpCode::Push(dst)),
    ];
    assert(s.drop_last() =~= seq![
        crate::codegen::unlabeled(OpCode::Pop(src)),
        crate::codegen::unlabeled(c),
    ]);
    assert(s.drop_last().drop_last() =~= seq![crate::codegen::unlabeled(OpCode::Pop(src))]);
    assert(s.drop_last().drop_last().drop_last() =~= Seq::<LabeledOpModel>::empty());
}

proof fn lemma_call_tail_delta(fl: crate::opcode::FuncLabel, n: usize)
    ensures
        seq_stack_delta(
            seq![
                crate::codegen::unlabeled(OpCode::FnCall(fl)),
                crate::codegen::unlabeled(OpCode::Free(n)),
                crate::codegen::unlabeled(OpCode::Push(Register::RAX)),
                crate::codegen::unlabeled(OpCode::LoadInt(0, Register::RAX)),
            ],
        ) == Some(1 - n as int),
{
    reveal_with_fuel(seq_stack_delta, 5);
    let s = seq![
        crate::codegen::unlabeled(OpCode::FnCall(fl)),
        crate::codegen::unlabeled(OpCode::Free(n)),
        crate::codegen::unlabeled(OpCode::Push(Register::RAX)),
        crate::codegen::unlabeled(OpCode::LoadInt(0, Register::RAX)),
    ];
    assert(s.drop_last() =~= seq![
        crate::codegen::unlabeled(OpCode::FnCall(fl)),
        crate::codegen::unlabeled(OpCode::Free(n)),
        crate::codegen::unlabeled(OpCode::Push(Register::RAX)),
    ]);
    assert(s.drop_last().drop_last() =~= seq![
        crate::codegen::unlabeled(OpCode::FnCall(fl)),
        crate::codegen::unlabeled(OpCode::Free(n)),
    ]);
    assert(s.drop_last().drop_last().drop_last() =~= seq![
        crate::codegen::unlabeled(OpCode::FnCall(fl)),
    ]);
    assert(s.drop_last().drop_last().drop_last().drop_last() =~= Seq::<
        LabeledOpModel,
    >::empty());
}

/// Expression balance: the code emitted for any expression has a fixed net
/// stack effect of exactly one pushed value. Expression code never contains
/// a frame or absolute-control opcode, so the sum is defined.
#[verifier::rlimit(100)]
pub proof fn lemma_expr_stack_balance(e: Expression, tbl: Seq<FuncSig>)
    ensures
        seq_stack_delta(emit_expr(e, tbl)) == Some(1int),
    decreases e,
{
    match e {
        Expression::Int(_) | Expression::Float(_) | Expression::GetWithLiteralIndex(_)
            | Expression::GetParam(_) | Expression::ReadInputByte => {
            lemma_load_pair_delta(emit_expr(e, tbl)[0].code);
        },
        Expression::Call(name, args) => {
            lemma_args_stack_balance(args@, tbl);
            let fl = crate::opcode::FuncLabel(crate::codegen::call_target(tbl, name@));
            let tail = seq![
                crate::codegen::unlabeled(OpCode::FnCall(fl)),
                crate::codegen::unlabeled(OpCode::Free((args@.len() as usize))),
                crate::codegen::unlabeled(OpCode::Push(Register::RAX)),
                crate::codegen::unlabeled(OpCode::LoadInt(0, Register::RAX)),
            ];
            assert(args.len() <= usize::MAX);
            lemma_call_tail_delta(fl, (args@.len() as usize));
            lemma_delta_concat(emit_args(args@, tbl), tail);
        },
        Expression::GetWithComputedIndex(x) => {
            lemma_expr_stack_balance(*x, tbl);
            lemma_unop_tail_delta(
                OpCode::GetVarComputed(Register::R1, Register::R2),
                Register::R1,
                Register::R2,
            );
            let pre = emit_expr(*x, tbl);
            let tail = emit_expr(e, tbl).skip(pre.len() as int);
            assert(pre + tail =~= emit_expr(e, tbl));
            assert(tail =~= seq![
                crate::codegen::unlabeled(OpCode::Pop(Register::R1)),
                crate::codegen::unlabeled(OpCode::GetVarComputed(Register::R1, Register::R2)),
                crate::codegen::unlabeled(OpCode::Push(Register::R2)),
            ]);
            lemma_delta_concat(pre, tail);
        },
        Expression::Neg(_, x) | Expression::BitNot(x) | Expression::LogiNot(x)
            | Expression::Itof(x) | Expression::Ftoi(x) => {
            lemma_expr_stack_balance(*x, tbl);
            let pre = emit_expr(*x, tbl);
            let tail = emit_expr(e, tbl).skip(pre.len() as int);
            assert(pre + tail =~= emit_expr(e, tbl));
            lemma_unop_tail_delta(tail[1].code, Register::R1, Register::R2);
            assert(tail =~= seq![
                crate::codegen::unlabeled(OpCode::Pop(Register::R1)),
                tail[1],
                crate::codegen::unlabeled(OpCode::Push(Register::R2)),
            ]);
            lemma_delta_concat(pre, tail);
        },
        Expression::Add(_, l, r) | Expression::Sub(_, l, r) | Expression::Mul(_, l, r)
            | Expression::Div(_, l, r) | Expression::Rem(_, l, r) | Expression::Eq(_, l, r)
            | Expression::Ne(_, l, r) | Expression::Lt(_, l, r) | Expression::Gt(_, l, r)
            | Expression::Le(_, l, r) | Expression::Ge(_, l, r) => {
            lemma_expr_stack_balance(*l, tbl);
            lemma_expr_stack_balance(*r, tbl);
            let lhs = emit_expr(*l, tbl);
            let rhs = emit_expr(*r, tbl);
            let tail = emit_expr(e, tbl).skip((lhs.len() + rhs.len()) as int);
            assert(lhs + rhs + tail =~= emit_expr(e, tbl));
            lemma_binop_tail_delta(tail[2].code);
            assert(tail =~= binop_tail(tail[2].code));
            lemma_delta_concat(lhs, rhs);
            lemma_delta_concat(lhs + rhs, tail);
        },
        Expression::And(l, r) | Expression::Or(l, r) | Expression::Xor(l, r)
            | Expression::Shl(l, r) | Expression::Shr(l, r) | Expression::ShrUnsigned(l, r) => {
            lemma_expr_stack_balance(*l, tbl);
            lemma_expr_stack_balance(*r, tbl);
            let lhs = emit_expr(*l, tbl);
            let rhs = emit_expr(*r, tbl);
            let tail = emit_expr(e, tbl).skip((lhs.len() + rhs.len()) as int);
            assert(lhs + rhs + tail =~= emit_expr(e, tbl));
            lemma_binop_tail_delta(tail[2].code);
            assert(tail =~= binop_tail(tail[2].code));
            lemma_delta_concat(lhs, rhs);
            lemma_delta_concat(lhs + rhs, tail);
        },
    }
}

/// Argument lists leave one value per argument.
pub proof fn lemma_args_stack_balance(args: Seq<Expression>, tbl: Seq<FuncSig>)
    ensures
        seq_stack_delta(emit_args(args, tbl)) == Some(args.len() as int),
    decreases args,
{
    if args.len() > 0 {
        lemma_args_stack_balance(args.drop_last(), tbl);
        lemma_expr_stack_balance(args.last(), tbl);
        lemma_delta_concat(emit_args(args.drop_last(), tbl), emit_expr(args.last(), tbl));
    }
}

} // verus!

verus! {

use crate::codegen::{peephole_spec, ph_from, window_rewrite};

// ------------------------------------------------------------------
// The peephole pass is idempotent
// ------------------------------------------------------------------

/// A collapsible window at position `k`: a push right before an unlabeled
/// pop.
pub open spec fn has_window(s: Seq<LabeledOpModel>, k: int) -> bool {
    &&& 1 <= k < s.len()
    &&& s[k - 1].code is Push
    &&& s[k].code is Pop
    &&& s[k].labels.len() == 0
}

/// The pass never rewrites anything in a sequence with no collapsible
/// window.
proof fn lemma_ph_stable(s: Seq<LabeledOpModel>, i: int)
    requires
        forall|k: int| !has_window(s, k),
    ensures
        ph_from(s, i) == s,
    decreases s.len() - i,
{
    if 1 <= i < s.len() {
        assert(!has_window(s, i));
        assert(window_rewrite(s, i) == s);
        lemma_ph_stable(s, i + 1);
    }
}

/// After the pass has moved its window past position `i`, no collapsible
/// window is left anywhere before it — and so none at all once it has run
/// to the end.
proof fn lemma_ph_clears_windows(s: Seq<LabeledOpModel>, i: int)
    requires
        1 <= i,
        forall|k: int| k < i ==> !has_window(s, k),
    ensures
        forall|k: int| !#[trigger] has_window(ph_from(s, i), k),
    decreases s.len() - i,
{
    if i >= s.len() {
        assert(ph_from(s, i) == s);
        assert(forall|k: int| k >= i ==> !has_window(s, k));
    } else {
        let s2 = window_rewrite(s, i);
        assert forall|k: int| k < i + 1 implies !has_window(s2, k) by {
            if 1 <= k < s2.len() {
                if s2 == s {
                    if k < i {
                        assert(!has_window(s, k));
                    } else {
                        assert(k == i);
                        assert(!has_window(s, i));
                    }
                } else {
                    if k < i - 1 {
                        assert(s2[k - 1] == s[k - 1] && s2[k] == s[k]);
                        assert(!has_window(s, k));
                    } else if k == i - 1 {
                        assert(!(s2[k].code is Pop));
                    } else {
                        assert(!(s2[i].code is Pop));
                    }
                }
            }
        }
        lemma_ph_clears_windows(s2, i + 1);
        assert(ph_from(s, i) == ph_from(s2, i + 1));
    }
}

/// Running the peephole pass twice gives the same instructions as running
/// it once: the first run leaves no collapsible window behind, so the
/// second finds nothing to rewrite.
pub proof fn lemma_peephole_idempotent(s: Seq<LabeledOpModel>)
    ensures
        peephole_spec(peephole_spec(s)) == peephole_spec(s),
{
    assert(forall|k: int| k < 1 ==> !has_window(s, k));
    lemma_ph_clears_windows(s, 1);
    lemma_ph_stable(ph_from(s, 1), 1);
}

} // verus!
