use vstd::prelude::*;

use crate::opcode::{Codes, OpCode, Register};
use crate::value::Value;

verus! {

/// The register file: three scratch registers and the return-value register.
#[derive(Clone, Copy, Debug, PartialEq, Eq, Structural)]
pub struct Registers {
    pub r1: Value,
    pub r2: Value,
    pub r3: Value,
    pub rax: Value,
}

impl Registers {
    /// All four registers hold integer zero.
    pub fn new() -> (r: Registers)
        ensures
            r == (Registers { r1: Value(0), r2: Value(0), r3: Value(0), rax: Value(0) }),
    {
        Registers { r1: Value(0), r2: Value(0), r3: Value(0), rax: Value(0) }
    }

    /// The cell held by register `r`.
    pub open spec fn read_spec(self, r: Register) -> Value {
        match r {
            Register::R1 => self.r1,
            Register::R2 => self.r2,
            Register::R3 => self.r3,
            Register::RAX => self.rax,
        }
    }

    /// This register file with `r` replaced by `v`.
    pub open spec fn write_spec(self, r: Register, v: Value) -> Registers {
        match r {
            Register::R1 => Registers { r1: v, ..self },
            Register::R2 => Registers { r2: v, ..self },
            Register::R3 => Registers { r3: v, ..self },
            Register::RAX => Registers { rax: v, ..self },
        }
    }

    pub fn read(&self, r: Register) -> (v: Value)
        ensures
            v == self.read_spec(r),
    {
        match r {
            Register::R1 => self.r1,
            Register::R2 => self.r2,
            Register::R3 => self.r3,
            Register::RAX => self.rax,
        }
    }

    pub fn write(&mut self, r: Register, v: Value)
        ensures
            *final(self) == old(self).write_spec(r, v),
    {
        match r {
            Register::R1 => self.r1 = v,
            Register::R2 => self.r2 = v,
            Register::R3 => self.r3 = v,
            Register::RAX => self.rax = v,
        }
    }
}

/// A broken executor-time invariant. The code generator never produces an
/// image that traps; a trap on a hand-made image reports a bug in that image.
/// The machine state is left exactly as it was before the faulting step.
#[derive(Clone, Copy, Debug, PartialEq, Eq, Structural)]
pub enum Trap {
    /// The instruction pointer left the code image.
    BadInstructionPointer,
    /// A `Nop` or a symbolic jump or call survived into execution.
    PseudoOpcode,
    /// A pop, a free or an epilogue found too few values on the stack.
    StackUnderflow,
    /// A parameter or local slot lies outside the stack.
    FrameOutOfRange,
    /// A computed local index is negative.
    NegativeIndex,
    /// Integer division or remainder by zero.
    DivisionByZero,
}

/// IEEE-754 work the host must perform on behalf of the machine. Every
/// payload is the raw bit pattern of a cell. The host computes the result
/// with ordinary double arithmetic and hands the resulting cell back through
/// [`Machine::write_register`]:
///
/// - `Add`/`Sub`/`Mul`/`Div`/`Rem`: the bit pattern of the double result;
/// - `CmpLt`/`CmpLe`/`CmpEq`/`CmpNe`: integer 1 if the comparison of the two
///   doubles holds, else integer 0;
/// - `Neg`: the bit pattern of the negated double;
/// - `OfInt`: the bit pattern of the double nearest the signed integer;
/// - `ToInt`: the signed integer the double converts to, saturating.
#[derive(Clone, Copy, Debug, PartialEq, Eq, Structural)]
pub enum FloatRequest {
    Add(i64, i64),
    Sub(i64, i64),
    Mul(i64, i64),
    Div(i64, i64),
    Rem(i64, i64),
    CmpLt(i64, i64),
    CmpLe(i64, i64),
    CmpEq(i64, i64),
    CmpNe(i64, i64),
    Neg(i64),
    OfInt(i64),
    ToInt(i64),
}

/// What one executed instruction asks of the host.
#[derive(Clone, Copy, Debug, PartialEq, Eq, Structural)]
pub enum StepEffect {
    /// The instruction completed inside the machine; nothing to do.
    Advanced,
    /// Write this byte to standard output.
    Output(u8),
    /// Write this byte to standard output, flush, read one byte from standard
    /// input, and hand it to the named register as an unsigned integer.
    PromptRead(u8, Register),
    /// Perform the IEEE-754 work and hand the resulting cell to the named
    /// register.
    FloatWork(FloatRequest, Register),
    /// The `Exit` opcode was reached; execution is over.
    Exited,
    /// A machine invariant was broken; the state is unchanged.
    Trapped(Trap),
}

/// The mathematical view of the machine.
#[verifier::ext_equal]
pub ghost struct MachineModel {
    pub regs: Registers,
    pub stack: Seq<Value>,
    pub rip: int,
    pub rbp: int,
}

/// The machine: the register file, the single value stack, the instruction
/// pointer and the frame pointer.
#[derive(Debug)]
pub struct Machine {
    pub regs: Registers,
    pub stack: Vec<Value>,
    pub rip: usize,
    pub rbp: usize,
}

impl View for Machine {
    type V = MachineModel;

    open spec fn view(&self) -> MachineModel {
        MachineModel {
            regs: self.regs,
            stack: self.stack@,
            rip: self.rip as int,
            rbp: self.rbp as int,
        }
    }
}

/// The byte an integer cell turns into on output: the value modulo 255.
/// The modulus is 255, not 256; value 255 maps to byte 0. This is kept
/// bit-for-bit as the machine has always behaved.
pub open spec fn output_byte(v: i64) -> u8 {
    (v % 255) as u8
}

/// Wrapping signed division as the `DivInt` opcode performs it: truncated
/// quotient, with the one overflowing quotient wrapping back to `i64::MIN`.
pub open spec fn div_wrap(a: i64, b: i64) -> i64
    recommends
        b != 0,
{
    match a.checked_div(b) {
        Some(q) => q,
        None => i64::MIN,
    }
}

/// Wrapping signed remainder as the `RemInt` opcode performs it: the
/// truncated remainder, with `i64::MIN % -1` giving 0.
pub open spec fn rem_wrap(a: i64, b: i64) -> i64
    recommends
        b != 0,
{
    match a.checked_rem(b) {
        Some(r) => r,
        None => 0,
    }
}

/// The shift count an integer cell contributes: its low six bits, as both
/// shift opcodes mask the count to the word size.
pub open spec fn shift_amount(b: i64) -> u32 {
    (b as u32) % 64
}

/// The cell produced by the `ShrUnsigned` opcode: the bits shifted right
/// with zero fill.
pub open spec fn shr_unsigned(a: i64, b: i64) -> i64 {
    (((a as u64) >> shift_amount(b)) as i64)
}

pub open spec fn bool_cell(b: bool) -> Value {
    if b {
        Value(1)
    } else {
        Value(0)
    }
}

impl MachineModel {
    /// This machine with the instruction pointer moved past the current
    /// instruction.
    pub open spec fn advanced(self) -> MachineModel {
        MachineModel { rip: self.rip + 1, ..self }
    }

    /// This machine with register `r` set to `v`.
    pub open spec fn with_reg(self, r: Register, v: Value) -> MachineModel {
        MachineModel { regs: self.regs.write_spec(r, v), ..self }
    }

    pub open spec fn reg(self, r: Register) -> i64 {
        self.regs.read_spec(r).0
    }
}

/// The result of one instruction: the machine afterwards and what the host
/// must do. On a trap the machine is returned unchanged.
pub open spec fn step_spec(code: Seq<OpCode>, m: MachineModel) -> (MachineModel, StepEffect) {
    if !(0 <= m.rip < code.len()) {
        (m, StepEffect::Trapped(Trap::BadInstructionPointer))
    } else {
        match code[m.rip] {
            OpCode::Exit => (m, StepEffect::Exited),
            OpCode::Nop => (m, StepEffect::Trapped(Trap::PseudoOpcode)),
            OpCode::Jmp(_) => (m, StepEffect::Trapped(Trap::PseudoOpcode)),
            OpCode::JmpIfZero(_, _) => (m, StepEffect::Trapped(Trap::PseudoOpcode)),
            OpCode::FnCall(_) => (m, StepEffect::Trapped(Trap::PseudoOpcode)),
            OpCode::LoadInt(v, d) => (m.with_reg(d, Value(v)).advanced(), StepEffect::Advanced),
            OpCode::LoadFloat(bits, d) => (
                m.with_reg(d, Value(bits)).advanced(),
                StepEffect::Advanced,
            ),
            OpCode::Mov(s, d) => (
                m.with_reg(d, m.regs.read_spec(s)).advanced(),
                StepEffect::Advanced,
            ),
            OpCode::Push(s) => (
                MachineModel { stack: m.stack.push(m.regs.read_spec(s)), ..m }.advanced(),
                StepEffect::Advanced,
            ),
            OpCode::Pop(d) => if m.stack.len() == 0 {
                (m, StepEffect::Trapped(Trap::StackUnderflow))
            } else {
                (
                    MachineModel {
                        stack: m.stack.drop_last(),
                        ..m.with_reg(d, m.stack.last())
                    }.advanced(),
                    StepEffect::Advanced,
                )
            },
            OpCode::Alloc(n) => (
                MachineModel {
                    stack: m.stack + Seq::new(n as nat, |i: int| Value(0)),
                    ..m
                }.advanced(),
                StepEffect::Advanced,
            ),
            OpCode::Free(n) => if m.stack.len() < n {
                (m, StepEffect::Trapped(Trap::StackUnderflow))
            } else {
                (
                    MachineModel {
                        stack: m.stack.take(m.stack.len() - n),
                        ..m
                    }.advanced(),
                    StepEffect::Advanced,
                )
            },
            OpCode::JmpAddr(a) => (MachineModel { rip: a as int, ..m }, StepEffect::Advanced),
            OpCode::JmpAddrIfZero(c, a) => if m.reg(c) == 0 {
                (MachineModel { rip: a as int, ..m }, StepEffect::Advanced)
            } else {
                (m.advanced(), StepEffect::Advanced)
            },
            OpCode::FunctionCall(a) => (
                MachineModel {
                    stack: m.stack.push(
                        Value(vstd::wrapping::i64_specs::wrapping_add((m.rip as i64), 1)),
                    ),
                    rip: a as int,
                    ..m
                },
                StepEffect::Advanced,
            ),
            OpCode::Ret => if m.stack.len() == 0 {
                (m, StepEffect::Trapped(Trap::StackUnderflow))
            } else {
                (
                    MachineModel {
                        stack: m.stack.drop_last(),
                        rip: ((m.stack.last().0 as usize) as int),
                        ..m
                    },
                    StepEffect::Advanced,
                )
            },
            OpCode::PushRbpAndMovEspToEbp => (
                MachineModel {
                    stack: m.stack.push(Value((m.rbp as i64))),
                    rbp: m.stack.len() as int + 1,
                    ..m
                }.advanced(),
                StepEffect::Advanced,
            ),
            OpCode::MovEbpToEspAndPopRbp => if m.rbp > m.stack.len() {
                (m, StepEffect::Trapped(Trap::FrameOutOfRange))
            } else if m.rbp == 0 {
                (m, StepEffect::Trapped(Trap::StackUnderflow))
            } else {
                (
                    MachineModel {
                        stack: m.stack.take(m.rbp - 1),
                        rbp: ((m.stack[m.rbp - 1].0 as usize) as int),
                        ..m
                    }.advanced(),
                    StepEffect::Advanced,
                )
            },
            OpCode::GetVar(i, d) => if m.rbp + i < m.stack.len() {
                (
                    m.with_reg(d, m.stack[m.rbp + i]).advanced(),
                    StepEffect::Advanced,
                )
            } else {
                (m, StepEffect::Trapped(Trap::FrameOutOfRange))
            },
            OpCode::SetVar(i, s) => if m.rbp + i < m.stack.len() {
                (
                    MachineModel {
                        stack: m.stack.update(m.rbp + i, m.regs.read_spec(s)),
                        ..m
                    }.advanced(),
                    StepEffect::Advanced,
                )
            } else {
                (m, StepEffect::Trapped(Trap::FrameOutOfRange))
            },
            OpCode::GetVarComputed(ri, d) => if m.reg(ri) < 0 {
                (m, StepEffect::Trapped(Trap::NegativeIndex))
            } else if m.rbp + m.reg(ri) < m.stack.len() {
                (
                    m.with_reg(d, m.stack[m.rbp + m.reg(ri)]).advanced(),
                    StepEffect::Advanced,
                )
            } else {
                (m, StepEffect::Trapped(Trap::FrameOutOfRange))
            },
            OpCode::SetVarComputed(ri, s) => if m.reg(ri) < 0 {
                (m, StepEffect::Trapped(Trap::NegativeIndex))
            } else if m.rbp + m.reg(ri) < m.stack.len() {
                (
                    MachineModel {
                        stack: m.stack.update(m.rbp + m.reg(ri), m.regs.read_spec(s)),
                        ..m
                    }.advanced(),
                    StepEffect::Advanced,
                )
            } else {
                (m, StepEffect::Trapped(Trap::FrameOutOfRange))
            },
            OpCode::GetParam(i, d) => if m.rbp - 2 - i >= 0 && m.rbp - 2 - i < m.stack.len() {
                (
                    m.with_reg(d, m.stack[m.rbp - 2 - i]).advanced(),
                    StepEffect::Advanced,
                )
            } else {
                (m, StepEffect::Trapped(Trap::FrameOutOfRange))
            },
            OpCode::LogiNot(s, d) => (
                m.with_reg(d, bool_cell(m.reg(s) == 0)).advanced(),
                StepEffect::Advanced,
            ),
            OpCode::BitNot(s, d) => (
                m.with_reg(d, Value(!m.reg(s))).advanced(),
                StepEffect::Advanced,
            ),
            OpCode::NegInt(s, d) => (
                m.with_reg(d, Value(vstd::wrapping::i64_specs::wrapping_sub(0, m.reg(s)))).advanced(),
                StepEffect::Advanced,
            ),
            OpCode::AddInt(a, b, d) => (
                m.with_reg(
                    d,
                    Value(vstd::wrapping::i64_specs::wrapping_add(m.reg(a), m.reg(b))),
                ).advanced(),
                StepEffect::Advanced,
            ),
            OpCode::SubInt(a, b, d) => (
                m.with_reg(
                    d,
                    Value(vstd::wrapping::i64_specs::wrapping_sub(m.reg(a), m.reg(b))),
                ).advanced(),
                StepEffect::Advanced,
            ),
            OpCode::MulInt(a, b, d) => (
                m.with_reg(
                    d,
                    Value(vstd::wrapping::i64_specs::wrapping_mul(m.reg(a), m.reg(b))),
                ).advanced(),
                StepEffect::Advanced,
            ),
            OpCode::DivInt(a, b, d) => if m.reg(b) == 0 {
                (m, StepEffect::Trapped(Trap::DivisionByZero))
            } else {
                (
                    m.with_reg(d, Value(div_wrap(m.reg(a), m.reg(b)))).advanced(),
                    StepEffect::Advanced,
                )
            },
            OpCode::RemInt(a, b, d) => if m.reg(b) == 0 {
                (m, StepEffect::Trapped(Trap::DivisionByZero))
            } else {
                (
                    m.with_reg(d, Value(rem_wrap(m.reg(a), m.reg(b)))).advanced(),
                    StepEffect::Advanced,
                )
            },
            OpCode::And(a, b, d) => (
                m.with_reg(d, Value(m.reg(a) & m.reg(b))).advanced(),
                StepEffect::Advanced,
            ),
            OpCode::Or(a, b, d) => (
                m.with_reg(d, Value(m.reg(a) | m.reg(b))).advanced(),
                StepEffect::Advanced,
            ),
            OpCode::Xor(a, b, d) => (
                m.with_reg(d, Value(m.reg(a) ^ m.reg(b))).advanced(),
                StepEffect::Advanced,
            ),
            OpCode::Shl(a, b, d) => (
                m.with_reg(
                    d,
                    Value(vstd::wrapping::i64_specs::wrapping_shl(m.reg(a), (m.reg(b) as u32))),
                ).advanced(),
                StepEffect::Advanced,
            ),
            OpCode::Shr(a, b, d) => (
                m.with_reg(
                    d,
                    Value(vstd::wrapping::i64_specs::wrapping_shr(m.reg(a), (m.reg(b) as u32))),
                ).advanced(),
                StepEffect::Advanced,
            ),
            OpCode::ShrUnsigned(a, b, d) => (
                m.with_reg(d, Value(shr_unsigned(m.reg(a), m.reg(b)))).advanced(),
                StepEffect::Advanced,
            ),
            OpCode::LtInt(a, b, d) => (
                m.with_reg(d, bool_cell(m.reg(a) < m.reg(b))).advanced(),
                StepEffect::Advanced,
            ),
            OpCode::LeInt(a, b, d) => (
                m.with_reg(d, bool_cell(m.reg(a) <= m.reg(b))).advanced(),
                StepEffect::Advanced,
            ),
            OpCode::EqInt(a, b, d) => (
                m.with_reg(d, bool_cell(m.reg(a) == m.reg(b))).advanced(),
                StepEffect::Advanced,
            ),
            OpCode::NeInt(a, b, d) => (
                m.with_reg(d, bool_cell(m.reg(a) != m.reg(b))).advanced(),
                StepEffect::Advanced,
            ),
            OpCode::PutByte(s) => (
                m.advanced(),
                StepEffect::Output(output_byte(m.reg(s))),
            ),
            OpCode::ReadByteFromStdin(d) => (
                m.advanced(),
                StepEffect::PromptRead(output_byte(m.reg(d)), d),
            ),
            OpCode::AddFloat(a, b, d) => (
                m.advanced(),
                StepEffect::FloatWork(FloatRequest::Add(m.reg(a), m.reg(b)), d),
            ),
            OpCode::SubFloat(a, b, d) => (
                m.advanced(),
                StepEffect::FloatWork(FloatRequest::Sub(m.reg(a), m.reg(b)), d),
            ),
            OpCode::MulFloat(a, b, d) => (
                m.advanced(),
                StepEffect::FloatWork(FloatRequest::Mul(m.reg(a), m.reg(b)), d),
            ),
            OpCode::DivFloat(a, b, d) => (
                m.advanced(),
                StepEffect::FloatWork(FloatRequest::Div(m.reg(a), m.reg(b)), d),
            ),
            OpCode::RemFloat(a, b, d) => (
                m.advanced(),
                StepEffect::FloatWork(FloatRequest::Rem(m.reg(a), m.reg(b)), d),
            ),
            OpCode::LtFloat(a, b, d) => (
                m.advanced(),
                StepEffect::FloatWork(FloatRequest::CmpLt(m.reg(a), m.reg(b)), d),
            ),
            OpCode::LeFloat(a, b, d) => (
                m.advanced(),
                StepEffect::FloatWork(FloatRequest::CmpLe(m.reg(a), m.reg(b)), d),
            ),
            OpCode::EqFloat(a, b, d) => (
                m.advanced(),
                StepEffect::FloatWork(FloatRequest::CmpEq(m.reg(a), m.reg(b)), d),
            ),
            OpCode::NeFloat(a, b, d) => (
                m.advanced(),
                StepEffect::FloatWork(FloatRequest::CmpNe(m.reg(a), m.reg(b)), d),
            ),
            OpCode::NegFloat(s, d) => (
                m.advanced(),
                StepEffect::FloatWork(FloatRequest::Neg(m.reg(s)), d),
            ),
            OpCode::IntToFloat(s, d) => (
                m.advanced(),
                StepEffect::FloatWork(FloatRequest::OfInt(m.reg(s)), d),
            ),
            OpCode::FloatToInt(s, d) => (
                m.advanced(),
                StepEffect::FloatWork(FloatRequest::ToInt(m.reg(s)), d),
            ),
        }
    }
}

/// Appends `n` zero cells.
fn push_zeros(stack: &mut Vec<Value>, n: usize)
    ensures
        final(stack)@ == old(stack)@ + Seq::new(n as nat, |i: int| Value(0)),
{
    let mut i: usize = 0;
    while i < n
        invariant
            i <= n,
            stack@ == old(stack)@ + Seq::new(i as nat, |j: int| Value(0)),
        decreases n - i,
    {
        stack.push(Value(0));
        proof {
            assert(stack@ =~= old(stack)@ + Seq::new((i + 1) as nat, |j: int| Value(0)));
        }
        i = i + 1;
    }
    proof {
        assert(stack@ =~= old(stack)@ + Seq::new(n as nat, |j: int| Value(0)));
    }
}

impl Machine {
    /// A machine about to run a code image: empty stack, zeroed registers,
    /// frame pointer 0, instruction pointer at the entry point.
    pub fn new(entry_point: usize) -> (m: Machine)
        ensures
            m@ == (MachineModel {
                regs: Registers { r1: Value(0), r2: Value(0), r3: Value(0), rax: Value(0) },
                stack: Seq::<Value>::empty(),
                rip: entry_point as int,
                rbp: 0,
            }),
    {
        let m = Machine { regs: Registers::new(), stack: Vec::new(), rip: entry_point, rbp: 0 };
        proof {
            assert(m@.stack =~= Seq::<Value>::empty());
        }
        m
    }

    /// Hands a host-computed cell to a register. The host calls this to
    /// deliver the answer to a `PromptRead` or `FloatWork` effect.
    pub fn write_register(&mut self, r: Register, v: Value)
        ensures
            final(self)@ == (MachineModel { regs: old(self).regs.write_spec(r, v), ..old(self)@ }),
    {
        self.regs.write(r, v);
    }

    /// Executes the instruction under the instruction pointer and reports
    /// what the host must do. The new state and the effect are exactly those
    /// of [`step_spec`].
    /// Loads, moves and the integer arithmetic, bitwise and comparison opcodes.
    fn step_alu(&mut self, codes: &Codes, op: OpCode) -> (eff: StepEffect)
        requires
            0 <= old(self)@.rip < codes.opcodes@.len(),
            codes.opcodes@[old(self)@.rip] == op,
            op is LoadInt || op is LoadFloat || op is Mov || op is LogiNot || op is BitNot || op is NegInt || op is AddInt || op is SubInt || op is MulInt || op is DivInt || op is RemInt || op is And || op is Or || op is Xor || op is Shl || op is Shr || op is ShrUnsigned || op is LtInt || op is LeInt || op is EqInt || op is NeInt,
        ensures
            (final(self)@, eff) == step_spec(codes.opcodes@, old(self)@),
    {
        let image_len = codes.opcodes.len();
        match op {
            OpCode::LoadInt(v, d) => {
                self.regs.write(d, Value(v));
                self.rip = self.rip + 1;
                                StepEffect::Advanced
            },
            OpCode::LoadFloat(bits, d) => {
                self.regs.write(d, Value(bits));
                self.rip = self.rip + 1;
                                StepEffect::Advanced
            },
            OpCode::Mov(s, d) => {
                let v = self.regs.read(s);
                self.regs.write(d, v);
                self.rip = self.rip + 1;
                                StepEffect::Advanced
            },
            OpCode::LogiNot(s, d) => {
                let v = self.regs.read(s).0;
                self.regs.write(d, if v == 0 { Value(1) } else { Value(0) });
                self.rip = self.rip + 1;
                                StepEffect::Advanced
            },
            OpCode::BitNot(s, d) => {
                let v = self.regs.read(s).0;
                self.regs.write(d, Value(!v));
                self.rip = self.rip + 1;
                                StepEffect::Advanced
            },
            OpCode::NegInt(s, d) => {
                let v = self.regs.read(s).0;
                self.regs.write(d, Value(0i64.wrapping_sub(v)));
                self.rip = self.rip + 1;
                                StepEffect::Advanced
            },
            OpCode::AddInt(a, b, d) => {
                let x = self.regs.read(a).0;
                let y = self.regs.read(b).0;
                self.regs.write(d, Value(x.wrapping_add(y)));
                self.rip = self.rip + 1;
                                StepEffect::Advanced
            },
            OpCode::SubInt(a, b, d) => {
                let x = self.regs.read(a).0;
                let y = self.regs.read(b).0;
                self.regs.write(d, Value(x.wrapping_sub(y)));
                self.rip = self.rip + 1;
                                StepEffect::Advanced
            },
            OpCode::MulInt(a, b, d) => {
                let x = self.regs.read(a).0;
                let y = self.regs.read(b).0;
                self.regs.write(d, Value(x.wrapping_mul(y)));
                self.rip = self.rip + 1;
                                StepEffect::Advanced
            },
            OpCode::DivInt(a, b, d) => {
                let x = self.regs.read(a).0;
                let y = self.regs.read(b).0;
                match x.checked_div(y) {
                    Some(q) => {
                        self.regs.write(d, Value(q));
                        self.rip = self.rip + 1;
                        StepEffect::Advanced
                    },
                    None => {
                        if y == 0 {
                                StepEffect::Trapped(Trap::DivisionByZero)
                        } else {
                            self.regs.write(d, Value(i64::MIN));
                            self.rip = self.rip + 1;
                                StepEffect::Advanced
                        }
                    },
                }
            },
            OpCode::RemInt(a, b, d) => {
                let x = self.regs.read(a).0;
                let y = self.regs.read(b).0;
                match x.checked_rem(y) {
                    Some(r) => {
                        self.regs.write(d, Value(r));
                        self.rip = self.rip + 1;
                        StepEffect::Advanced
                    },
                    None => {
                        if y == 0 {
                                StepEffect::Trapped(Trap::DivisionByZero)
                        } else {
                            self.regs.write(d, Value(0));
                            self.rip = self.rip + 1;
                                StepEffect::Advanced
                        }
                    },
                }
            },
            OpCode::And(a, b, d) => {
                let x = self.regs.read(a).0;
                let y = self.regs.read(b).0;
                self.regs.write(d, Value(x & y));
                self.rip = self.rip + 1;
                                StepEffect::Advanced
            },
            OpCode::Or(a, b, d) => {
                let x = self.regs.read(a).0;
                let y = self.regs.read(b).0;
                self.regs.write(d, Value(x | y));
                self.rip = self.rip + 1;
                                StepEffect::Advanced
            },
            OpCode::Xor(a, b, d) => {
                let x = self.regs.read(a).0;
                let y = self.regs.read(b).0;
                self.regs.write(d, Value(x ^ y));
                self.rip = self.rip + 1;
                                StepEffect::Advanced
            },
            OpCode::Shl(a, b, d) => {
                let x = self.regs.read(a).0;
                let y = self.regs.read(b).0;
                self.regs.write(d, Value(x.wrapping_shl(#[verifier::truncate] (y as u32))));
                self.rip = self.rip + 1;
                                StepEffect::Advanced
            },
            OpCode::Shr(a, b, d) => {
                let x = self.regs.read(a).0;
                let y = self.regs.read(b).0;
                self.regs.write(d, Value(x.wrapping_shr(#[verifier::truncate] (y as u32))));
                self.rip = self.rip + 1;
                                StepEffect::Advanced
            },
            OpCode::ShrUnsigned(a, b, d) => {
                let x = self.regs.read(a).0;
                let y = self.regs.read(b).0;
                let ux = #[verifier::truncate] (x as u64);
                let shifted = ux.wrapping_shr(#[verifier::truncate] (y as u32));
                self.regs.write(d, Value(#[verifier::truncate] (shifted as i64)));
                self.rip = self.rip + 1;
                                StepEffect::Advanced
            },
            OpCode::LtInt(a, b, d) => {
                let x = self.regs.read(a).0;
                let y = self.regs.read(b).0;
                self.regs.write(d, if x < y { Value(1) } else { Value(0) });
                self.rip = self.rip + 1;
                                StepEffect::Advanced
            },
            OpCode::LeInt(a, b, d) => {
                let x = self.regs.read(a).0;
                let y = self.regs.read(b).0;
                self.regs.write(d, if x <= y { Value(1) } else { Value(0) });
                self.rip = self.rip + 1;
                                StepEffect::Advanced
            },
            OpCode::EqInt(a, b, d) => {
                let x = self.regs.read(a).0;
                let y = self.regs.read(b).0;
                self.regs.write(d, if x == y { Value(1) } else { Value(0) });
                self.rip = self.rip + 1;
                                StepEffect::Advanced
            },
            OpCode::NeInt(a, b, d) => {
                let x = self.regs.read(a).0;
                let y = self.regs.read(b).0;
                self.regs.write(d, if x != y { Value(1) } else { Value(0) });
                self.rip = self.rip + 1;
                                StepEffect::Advanced
            },
            _ => {
                proof {
                    assert(false);
                }
                StepEffect::Exited
            },
        }
    }

    /// The stack, call-frame and control-transfer opcodes.
    fn step_stack_flow(&mut self, codes: &Codes, op: OpCode) -> (eff: StepEffect)
        requires
            0 <= old(self)@.rip < codes.opcodes@.len(),
            codes.opcodes@[old(self)@.rip] == op,
            op is Push || op is Pop || op is Alloc || op is Free || op is JmpAddr || op is JmpAddrIfZero || op is FunctionCall || op is Ret || op is PushRbpAndMovEspToEbp || op is MovEbpToEspAndPopRbp,
        ensures
            (final(self)@, eff) == step_spec(codes.opcodes@, old(self)@),
    {
        let image_len = codes.opcodes.len();
        match op {
            OpCode::Push(s) => {
                let v = self.regs.read(s);
                self.stack.push(v);
                self.rip = self.rip + 1;
                                StepEffect::Advanced
            },
            OpCode::Pop(d) => {
                match self.stack.pop() {
                    None => StepEffect::Trapped(Trap::StackUnderflow),
                    Some(v) => {
                        self.regs.write(d, v);
                        self.rip = self.rip + 1;
                        StepEffect::Advanced
                    },
                }
            },
            OpCode::Alloc(n) => {
                push_zeros(&mut self.stack, n);
                self.rip = self.rip + 1;
                                StepEffect::Advanced
            },
            OpCode::Free(n) => {
                if self.stack.len() < n {
                                        return StepEffect::Trapped(Trap::StackUnderflow);
                }
                let keep = self.stack.len() - n;
                self.stack.truncate(keep);
                self.rip = self.rip + 1;
                                StepEffect::Advanced
            },
            OpCode::JmpAddr(a) => {
                self.rip = a;
                                StepEffect::Advanced
            },
            OpCode::JmpAddrIfZero(c, a) => {
                if self.regs.read(c).0 == 0 {
                    self.rip = a;
                } else {
                    self.rip = self.rip + 1;
                }
                                StepEffect::Advanced
            },
            OpCode::FunctionCall(a) => {
                let ret = (#[verifier::truncate] (self.rip as i64)).wrapping_add(1);
                self.stack.push(Value(ret));
                self.rip = a;
                                StepEffect::Advanced
            },
            OpCode::Ret => {
                match self.stack.pop() {
                    None => StepEffect::Trapped(Trap::StackUnderflow),
                    Some(v) => {
                        self.rip = #[verifier::truncate] (v.0 as usize);
                        StepEffect::Advanced
                    },
                }
            },
            OpCode::PushRbpAndMovEspToEbp => {
                let saved = #[verifier::truncate] (self.rbp as i64);
                self.stack.push(Value(saved));
                self.rbp = self.stack.len();
                self.rip = self.rip + 1;
                                StepEffect::Advanced
            },
            OpCode::MovEbpToEspAndPopRbp => {
                if self.rbp > self.stack.len() {
                                        return StepEffect::Trapped(Trap::FrameOutOfRange);
                }
                if self.rbp == 0 {
                                        return StepEffect::Trapped(Trap::StackUnderflow);
                }
                self.stack.truncate(self.rbp);
                match self.stack.pop() {
                    None => {
                        proof {
                            assert(false);
                        }
                        StepEffect::Trapped(Trap::StackUnderflow)
                    },
                    Some(v) => {
                        self.rbp = #[verifier::truncate] (v.0 as usize);
                        self.rip = self.rip + 1;
                        StepEffect::Advanced
                    },
                }
            },
            _ => {
                proof {
                    assert(false);
                }
                StepEffect::Exited
            },
        }
    }

    /// The parameter and local-slot opcodes.
    fn step_slots(&mut self, codes: &Codes, op: OpCode) -> (eff: StepEffect)
        requires
            0 <= old(self)@.rip < codes.opcodes@.len(),
            codes.opcodes@[old(self)@.rip] == op,
            op is GetVar || op is SetVar || op is GetVarComputed || op is SetVarComputed || op is GetParam,
        ensures
            (final(self)@, eff) == step_spec(codes.opcodes@, old(self)@),
    {
        let image_len = codes.opcodes.len();
        match op {
            OpCode::GetVar(i, d) => {
                let slot = (self.rbp as u128) + (i as u128);
                if slot < (self.stack.len() as u128) {
                    let pos = slot as usize;
                    let v = self.stack[pos];
                    self.regs.write(d, v);
                    self.rip = self.rip + 1;
                    StepEffect::Advanced
                } else {
                    StepEffect::Trapped(Trap::FrameOutOfRange)
                }
            },
            OpCode::SetVar(i, s) => {
                let slot = (self.rbp as u128) + (i as u128);
                if slot < (self.stack.len() as u128) {
                    let pos = slot as usize;
                    let v = self.regs.read(s);
                    self.stack.set(pos, v);
                    self.rip = self.rip + 1;
                    StepEffect::Advanced
                } else {
                    StepEffect::Trapped(Trap::FrameOutOfRange)
                }
            },
            OpCode::GetVarComputed(ri, d) => {
                let iv = self.regs.read(ri).0;
                if iv < 0 {
                                        return StepEffect::Trapped(Trap::NegativeIndex);
                }
                let slot = (self.rbp as u128) + (iv as u128);
                if slot < (self.stack.len() as u128) {
                    let pos = slot as usize;
                    let v = self.stack[pos];
                    self.regs.write(d, v);
                    self.rip = self.rip + 1;
                                        StepEffect::Advanced
                } else {
                                        StepEffect::Trapped(Trap::FrameOutOfRange)
                }
            },
            OpCode::SetVarComputed(ri, s) => {
                let iv = self.regs.read(ri).0;
                if iv < 0 {
                                        return StepEffect::Trapped(Trap::NegativeIndex);
                }
                let slot = (self.rbp as u128) + (iv as u128);
                if slot < (self.stack.len() as u128) {
                    let pos = slot as usize;
                    let v = self.regs.read(s);
                    self.stack.set(pos, v);
                    self.rip = self.rip + 1;
                                        StepEffect::Advanced
                } else {
                                        StepEffect::Trapped(Trap::FrameOutOfRange)
                }
            },
            OpCode::GetParam(i, d) => {
                if self.rbp >= 2 && self.rbp - 2 >= i && self.rbp - 2 - i < self.stack.len() {
                    let v = self.stack[self.rbp - 2 - i];
                    self.regs.write(d, v);
                    self.rip = self.rip + 1;
                                        StepEffect::Advanced
                } else {
                                        StepEffect::Trapped(Trap::FrameOutOfRange)
                }
            },
            _ => {
                proof {
                    assert(false);
                }
                StepEffect::Exited
            },
        }
    }

    pub fn step(&mut self, codes: &Codes) -> (eff: StepEffect)
        ensures
            (final(self)@, eff) == step_spec(codes.opcodes@, old(self)@),
    {
        if self.rip >= codes.opcodes.len() {
            return StepEffect::Trapped(Trap::BadInstructionPointer);
        }
        let op = codes.opcodes[self.rip];
        match op {
            OpCode::Exit => StepEffect::Exited,
            OpCode::Nop | OpCode::Jmp(_) | OpCode::JmpIfZero(_, _) | OpCode::FnCall(_) => {
                                StepEffect::Trapped(Trap::PseudoOpcode)
            },
            OpCode::PutByte(s) => {
                let b = byte_of_cell(self.regs.read(s).0);
                self.rip = self.rip + 1;
                                StepEffect::Output(b)
            },
            OpCode::ReadByteFromStdin(d) => {
                let b = byte_of_cell(self.regs.read(d).0);
                self.rip = self.rip + 1;
                                StepEffect::PromptRead(b, d)
            },
            OpCode::AddFloat(a, b, d) => {
                let x = self.regs.read(a).0;
                let y = self.regs.read(b).0;
                self.rip = self.rip + 1;
                                StepEffect::FloatWork(FloatRequest::Add(x, y), d)
            },
            OpCode::SubFloat(a, b, d) => {
                let x = self.regs.read(a).0;
                let y = self.regs.read(b).0;
                self.rip = self.rip + 1;
                                StepEffect::FloatWork(FloatRequest::Sub(x, y), d)
            },
            OpCode::MulFloat(a, b, d) => {
                let x = self.regs.read(a).0;
                let y = self.regs.read(b).0;
                self.rip = self.rip + 1;
                                StepEffect::FloatWork(FloatRequest::Mul(x, y), d)
            },
            OpCode::DivFloat(a, b, d) => {
                let x = self.regs.read(a).0;
                let y = self.regs.read(b).0;
                self.rip = self.rip + 1;
                                StepEffect::FloatWork(FloatRequest::Div(x, y), d)
            },
            OpCode::RemFloat(a, b, d) => {
                let x = self.regs.read(a).0;
                let y = self.regs.read(b).0;
                self.rip = self.rip + 1;
                                StepEffect::FloatWork(FloatRequest::Rem(x, y), d)
            },
            OpCode::LtFloat(a, b, d) => {
                let x = self.regs.read(a).0;
                let y = self.regs.read(b).0;
                self.rip = self.rip + 1;
                                StepEffect::FloatWork(FloatRequest::CmpLt(x, y), d)
            },
            OpCode::LeFloat(a, b, d) => {
                let x = self.regs.read(a).0;
                let y = self.regs.read(b).0;
                self.rip = self.rip + 1;
                                StepEffect::FloatWork(FloatRequest::CmpLe(x, y), d)
            },
            OpCode::EqFloat(a, b, d) => {
                let x = self.regs.read(a).0;
                let y = self.regs.read(b).0;
                self.rip = self.rip + 1;
                                StepEffect::FloatWork(FloatRequest::CmpEq(x, y), d)
            },
            OpCode::NeFloat(a, b, d) => {
                let x = self.regs.read(a).0;
                let y = self.regs.read(b).0;
                self.rip = self.rip + 1;
                                StepEffect::FloatWork(FloatRequest::CmpNe(x, y), d)
            },
            OpCode::NegFloat(s, d) => {
                let x = self.regs.read(s).0;
                self.rip = self.rip + 1;
                                StepEffect::FloatWork(FloatRequest::Neg(x), d)
            },
            OpCode::IntToFloat(s, d) => {
                let x = self.regs.read(s).0;
                self.rip = self.rip + 1;
                                StepEffect::FloatWork(FloatRequest::OfInt(x), d)
            },
            OpCode::FloatToInt(s, d) => {
                let x = self.regs.read(s).0;
                self.rip = self.rip + 1;
                                StepEffect::FloatWork(FloatRequest::ToInt(x), d)
            },
            OpCode::LoadInt(..) | OpCode::LoadFloat(..) | OpCode::Mov(..) | OpCode::LogiNot(..) | OpCode::BitNot(..) | OpCode::NegInt(..) | OpCode::AddInt(..) | OpCode::SubInt(..) | OpCode::MulInt(..) | OpCode::DivInt(..) | OpCode::RemInt(..) | OpCode::And(..) | OpCode::Or(..) | OpCode::Xor(..) | OpCode::Shl(..) | OpCode::Shr(..) | OpCode::ShrUnsigned(..) | OpCode::LtInt(..) | OpCode::LeInt(..) | OpCode::EqInt(..) | OpCode::NeInt(..) => self.step_alu(codes, op),
            OpCode::Push(..) | OpCode::Pop(..) | OpCode::Alloc(..) | OpCode::Free(..) | OpCode::JmpAddr(..) | OpCode::JmpAddrIfZero(..) | OpCode::FunctionCall(..) | OpCode::Ret | OpCode::PushRbpAndMovEspToEbp | OpCode::MovEbpToEspAndPopRbp => self.step_stack_flow(codes, op),
            OpCode::GetVar(..) | OpCode::SetVar(..) | OpCode::GetVarComputed(..) | OpCode::SetVarComputed(..) | OpCode::GetParam(..) => self.step_slots(codes, op),
        }
    }
}

/// The byte an integer cell turns into on output: the value modulo 255.
fn byte_of_cell(v: i64) -> (b: u8)
    ensures
        b == output_byte(v),
{
    let r = match v.checked_rem_euclid(255) {
        Some(r) => r,
        None => 0,
    };
    r as u8
}

} // verus!
