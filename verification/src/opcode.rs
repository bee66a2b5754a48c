use vstd::prelude::*;

verus! {

/// A symbolic jump target. Label numbers are drawn from one counter per
/// compilation, so a label used anywhere in the program is unique across all
/// of its functions. Layout resolves each label to the index of the one
/// instruction that carries it.
#[derive(Clone, Copy, Debug, PartialEq, Eq, Structural)]
pub struct Label(pub usize);

/// A symbolic call target: the position of the callee in the input program.
/// Layout resolves it to the callee's first instruction index.
#[derive(Clone, Copy, Debug, PartialEq, Eq, Structural)]
pub struct FuncLabel(pub usize);

/// The four register slots: three scratch registers and the return-value
/// register.
#[derive(Clone, Copy, Debug, PartialEq, Eq, Structural)]
pub enum Register {
    R1,
    R2,
    R3,
    RAX,
}

/// One bytecode instruction.
///
/// `LoadFloat` carries the IEEE-754 bit pattern of its literal, stored in the
/// same signed-integer form as the machine cells; the executor never
/// interprets those bits itself.
///
/// `Jmp`, `JmpIfZero` and `FnCall` are the pre-resolution forms with symbolic
/// targets; layout rewrites them to `JmpAddr`, `JmpAddrIfZero` and
/// `FunctionCall`, whose targets are absolute code indices. `Nop` only ever
/// anchors labels during generation. None of the four may survive into a
/// finished code image.
#[derive(Clone, Copy, Debug, PartialEq, Eq, Structural)]
pub enum OpCode {
    Push(Register),
    LoadInt(i64, Register),
    LoadFloat(i64, Register),
    Pop(Register),
    Mov(Register, Register),
    LogiNot(Register, Register),
    BitNot(Register, Register),
    NegInt(Register, Register),
    NegFloat(Register, Register),
    AddFloat(Register, Register, Register),
    AddInt(Register, Register, Register),
    SubFloat(Register, Register, Register),
    SubInt(Register, Register, Register),
    MulFloat(Register, Register, Register),
    MulInt(Register, Register, Register),
    DivFloat(Register, Register, Register),
    DivInt(Register, Register, Register),
    RemFloat(Register, Register, Register),
    RemInt(Register, Register, Register),
    NeInt(Register, Register, Register),
    EqInt(Register, Register, Register),
    NeFloat(Register, Register, Register),
    EqFloat(Register, Register, Register),
    And(Register, Register, Register),
    Or(Register, Register, Register),
    Xor(Register, Register, Register),
    Shr(Register, Register, Register),
    ShrUnsigned(Register, Register, Register),
    Shl(Register, Register, Register),
    LtInt(Register, Register, Register),
    LtFloat(Register, Register, Register),
    LeInt(Register, Register, Register),
    LeFloat(Register, Register, Register),
    SetVar(usize, Register),
    SetVarComputed(Register, Register),
    GetVar(usize, Register),
    GetVarComputed(Register, Register),
    GetParam(usize, Register),
    FloatToInt(Register, Register),
    IntToFloat(Register, Register),
    Jmp(Label),
    JmpIfZero(Register, Label),
    FnCall(FuncLabel),
    JmpAddr(usize),
    JmpAddrIfZero(Register, usize),
    FunctionCall(usize),
    PutByte(Register),
    ReadByteFromStdin(Register),
    Alloc(usize),
    Free(usize),
    Ret,
    Nop,
    PushRbpAndMovEspToEbp,
    MovEbpToEspAndPopRbp,
    Exit,
}

impl OpCode {
    /// A pre-resolution opcode with a symbolic target.
    pub open spec fn is_symbolic(self) -> bool {
        self is Jmp || self is JmpIfZero || self is FnCall
    }

    /// An opcode that may not appear in a finished code image.
    pub open spec fn is_pseudo(self) -> bool {
        self is Nop || self.is_symbolic()
    }
}

/// An instruction paired with the labels whose target it is. Several labels
/// may share one instruction.
#[derive(Debug)]
pub struct LabeledOpCode {
    pub labels: Vec<Label>,
    pub code: OpCode,
}

/// The mathematical view of a labeled instruction.
#[verifier::ext_equal]
pub ghost struct LabeledOpModel {
    pub labels: Seq<Label>,
    pub code: OpCode,
}

impl View for LabeledOpCode {
    type V = LabeledOpModel;

    open spec fn view(&self) -> LabeledOpModel {
        LabeledOpModel { labels: self.labels@, code: self.code }
    }
}

impl Clone for LabeledOpCode {
    fn clone(&self) -> (r: Self)
        ensures
            r@ == self@,
    {
        LabeledOpCode { labels: self.labels.clone(), code: self.code }
    }
}

impl LabeledOpCode {
    pub fn without_label(code: OpCode) -> (r: Self)
        ensures
            r@ == (LabeledOpModel { labels: Seq::<Label>::empty(), code }),
    {
        let r = LabeledOpCode { labels: Vec::new(), code };
        proof {
            assert(r@.labels =~= Seq::<Label>::empty());
        }
        r
    }

    pub fn with_one_label(label: Label, code: OpCode) -> (r: Self)
        ensures
            r@ == (LabeledOpModel { labels: seq![label], code }),
    {
        let mut labels: Vec<Label> = Vec::new();
        labels.push(label);
        let r = LabeledOpCode { labels, code };
        proof {
            assert(r@.labels =~= seq![label]);
        }
        r
    }

    pub fn with_labels(labels: Vec<Label>, code: OpCode) -> (r: Self)
        ensures
            r@ == (LabeledOpModel { labels: labels@, code }),
    {
        LabeledOpCode { labels, code }
    }
}

/// A finished code image: the concatenated, label-resolved instructions of
/// every function, and the index at which execution starts (the first
/// instruction of `main`).
#[derive(Debug)]
pub struct Codes {
    pub entry_point: usize,
    pub opcodes: Vec<OpCode>,
}

} // verus!
