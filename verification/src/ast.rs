use vstd::prelude::*;

verus! {

/// Whether a typed arithmetic, comparison or negation node works on the
/// signed-integer view or on the IEEE-754 view of the cells.
#[derive(Clone, Copy, Debug, PartialEq, Eq, Structural)]
pub enum OperandType {
    Float,
    Int,
}

/// An expression of the source language. Every expression lowers to code
/// that leaves exactly one value on top of the stack.
///
/// `Float` carries the IEEE-754 bit pattern of the literal in cell form.
/// `GetParam` carries the already transformed slot index
/// `params_size - source_index`, exactly as the parser hands it over.
#[derive(Debug)]
pub enum Expression {
    Int(i64),
    Float(i64),
    GetWithLiteralIndex(usize),
    GetParam(usize),
    GetWithComputedIndex(Box<Expression>),
    Call(String, Vec<Expression>),
    Add(OperandType, Box<Expression>, Box<Expression>),
    Sub(OperandType, Box<Expression>, Box<Expression>),
    Mul(OperandType, Box<Expression>, Box<Expression>),
    Div(OperandType, Box<Expression>, Box<Expression>),
    Rem(OperandType, Box<Expression>, Box<Expression>),
    Eq(OperandType, Box<Expression>, Box<Expression>),
    Ne(OperandType, Box<Expression>, Box<Expression>),
    Lt(OperandType, Box<Expression>, Box<Expression>),
    Gt(OperandType, Box<Expression>, Box<Expression>),
    Le(OperandType, Box<Expression>, Box<Expression>),
    Ge(OperandType, Box<Expression>, Box<Expression>),
    And(Box<Expression>, Box<Expression>),
    Or(Box<Expression>, Box<Expression>),
    Xor(Box<Expression>, Box<Expression>),
    Shl(Box<Expression>, Box<Expression>),
    Shr(Box<Expression>, Box<Expression>),
    ShrUnsigned(Box<Expression>, Box<Expression>),
    Itof(Box<Expression>),
    Ftoi(Box<Expression>),
    Neg(OperandType, Box<Expression>),
    BitNot(Box<Expression>),
    LogiNot(Box<Expression>),
    ReadInputByte,
}

/// A statement of the source language.
#[derive(Debug)]
pub enum Statement {
    While { cond: Box<Expression>, body: Box<Statement> },
    If { cond: Box<Expression>, then_branch: Box<Statement>, unless_branch: Box<Statement> },
    SetWithLiteralIndex { index: usize, val: Box<Expression> },
    SetWithComputedIndex { index: Box<Expression>, val: Box<Expression> },
    Block { stmts: Vec<Statement> },
    PutByte { val: Box<Expression> },
    Return { val: Box<Expression> },
    Expr { expr: Box<Expression> },
}

/// One function: its name, the number of positional parameters the caller
/// pushes, the number of local slots reserved on entry, and the body.
#[derive(Debug)]
pub struct FunctionData {
    pub body: Statement,
    pub name: String,
    pub params_size: usize,
    pub alloc_size: usize,
}

/// A whole program: its functions in source order.
#[derive(Debug)]
pub struct Program {
    pub funcs: Vec<FunctionData>,
}

} // verus!
