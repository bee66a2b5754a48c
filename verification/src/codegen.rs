use vstd::prelude::*;

use crate::ast::{Expression, FunctionData, OperandType, Program, Statement};
use crate::opcode::{Codes, FuncLabel, Label, LabeledOpCode, LabeledOpModel, OpCode, Register};

verus! {

broadcast use vstd::std_specs::vec::group_vec_axioms;

// ------------------------------------------------------------------
// The name table
// ------------------------------------------------------------------

/// What the generator knows of one function: its name, how many arguments a
/// call must pass, and its position in the program.
pub struct FuncMeta {
    pub name: String,
    pub params_size: usize,
    pub index: usize,
}

/// The mathematical view of a name-table entry.
pub ghost struct FuncSig {
    pub name: Seq<char>,
    pub params_size: usize,
    pub index: usize,
}

impl View for FuncMeta {
    type V = FuncSig;

    open spec fn view(&self) -> FuncSig {
        FuncSig { name: self.name@, params_size: self.params_size, index: self.index }
    }
}

/// The views of a sequence of table entries.
pub open spec fn table_model(t: Seq<FuncMeta>) -> Seq<FuncSig> {
    Seq::new(t.len(), |i: int| t[i]@)
}

/// The table a program induces: one entry per function, in order.
pub open spec fn spec_table(funcs: Seq<FunctionData>) -> Seq<FuncSig> {
    Seq::new(
        funcs.len(),
        |i: int| FuncSig {
            name: funcs[i].name@,
            params_size: funcs[i].params_size,
            index: i as usize,
        },
    )
}

/// The entry a name resolves to: the last entry of that name, as a later
/// definition shadows an earlier one of the same name.
pub open spec fn lookup(tbl: Seq<FuncSig>, name: Seq<char>) -> Option<FuncSig>
    decreases tbl.len(),
{
    if tbl.len() == 0 {
        None
    } else if tbl.last().name == name {
        Some(tbl.last())
    } else {
        lookup(tbl.drop_last(), name)
    }
}

/// Scans the table from the end for the entry a name resolves to.
fn find_func(table: &Vec<FuncMeta>, name: &String) -> (r: Option<(usize, usize)>)
    ensures
        match (r, lookup(table_model(table@), name@)) {
            (Some((params_size, index)), Some(f)) => params_size == f.params_size && index
                == f.index,
            (None, None) => true,
            _ => false,
        },
{
    let mut i: usize = table.len();
    proof {
        assert(table_model(table@).take(i as int) =~= table_model(table@));
    }
    while i > 0
        invariant
            i <= table.len(),
            lookup(table_model(table@), name@) == lookup(
                table_model(table@).take(i as int),
                name@,
            ),
        decreases i,
    {
        i = i - 1;
        if table[i].name == *name {
            proof {
                assert(table_model(table@).take(i as int + 1).last() == table[i as int]@);
            }
            return Some((table[i].params_size, table[i].index));
        }
        proof {
            assert(table_model(table@).take(i as int + 1).drop_last() =~= table_model(
                table@,
            ).take(i as int));
        }
    }
    proof {
        assert(table_model(table@).take(0).len() == 0);
    }
    None
}

// ------------------------------------------------------------------
// Generation errors
// ------------------------------------------------------------------

/// Why a program cannot be lowered. The original toolchain stops with a
/// diagnostic in each of these situations.
#[derive(Clone, Copy, Debug, PartialEq, Eq, Structural)]
pub enum GenError {
    /// A call site names a function the program does not define.
    UndefinedFunction,
    /// A call site passes a different number of arguments than the callee
    /// declares.
    ArityMismatch,
    /// A literal local index reaches at or beyond the function's
    /// `alloc_size`.
    LocalIndexOutOfRange,
    /// No function is named `main`, so there is no entry point.
    MissingMain,
    /// The program needs more labels than the machine word can count.
    TooManyLabels,
}

// ------------------------------------------------------------------
// Well-formedness of the input
// ------------------------------------------------------------------

/// Every call in the expression names a defined function, directly and in
/// every argument.
pub open spec fn calls_defined_expr(e: Expression, tbl: Seq<FuncSig>) -> bool
    decreases e,
{
    match e {
        Expression::Call(name, args) => lookup(tbl, name@) is Some && calls_defined_args(
            args@,
            tbl,
        ),
        Expression::GetWithComputedIndex(x) => calls_defined_expr(*x, tbl),
        Expression::Itof(x) => calls_defined_expr(*x, tbl),
        Expression::Ftoi(x) => calls_defined_expr(*x, tbl),
        Expression::Neg(_, x) => calls_defined_expr(*x, tbl),
        Expression::BitNot(x) => calls_defined_expr(*x, tbl),
        Expression::LogiNot(x) => calls_defined_expr(*x, tbl),
        Expression::Add(_, l, r) => calls_defined_expr(*l, tbl) && calls_defined_expr(*r, tbl),
        Expression::Sub(_, l, r) => calls_defined_expr(*l, tbl) && calls_defined_expr(*r, tbl),
        Expression::Mul(_, l, r) => calls_defined_expr(*l, tbl) && calls_defined_expr(*r, tbl),
        Expression::Div(_, l, r) => calls_defined_expr(*l, tbl) && calls_defined_expr(*r, tbl),
        Expression::Rem(_, l, r) => calls_defined_expr(*l, tbl) && calls_defined_expr(*r, tbl),
        Expression::Eq(_, l, r) => calls_defined_expr(*l, tbl) && calls_defined_expr(*r, tbl),
        Expression::Ne(_, l, r) => calls_defined_expr(*l, tbl) && calls_defined_expr(*r, tbl),
        Expression::Lt(_, l, r) => calls_defined_expr(*l, tbl) && calls_defined_expr(*r, tbl),
        Expression::Gt(_, l, r) => calls_defined_expr(*l, tbl) && calls_defined_expr(*r, tbl),
        Expression::Le(_, l, r) => calls_defined_expr(*l, tbl) && calls_defined_expr(*r, tbl),
        Expression::Ge(_, l, r) => calls_defined_expr(*l, tbl) && calls_defined_expr(*r, tbl),
        Expression::And(l, r) => calls_defined_expr(*l, tbl) && calls_defined_expr(*r, tbl),
        Expression::Or(l, r) => calls_defined_expr(*l, tbl) && calls_defined_expr(*r, tbl),
        Expression::Xor(l, r) => calls_defined_expr(*l, tbl) && calls_defined_expr(*r, tbl),
        Expression::Shl(l, r) => calls_defined_expr(*l, tbl) && calls_defined_expr(*r, tbl),
        Expression::Shr(l, r) => calls_defined_expr(*l, tbl) && calls_defined_expr(*r, tbl),
        Expression::ShrUnsigned(l, r) => calls_defined_expr(*l, tbl) && calls_defined_expr(
            *r,
            tbl,
        ),
        _ => true,
    }
}

/// Every call in the expression whose callee is defined passes exactly the
/// declared number of arguments.
pub open spec fn arities_ok_expr(e: Expression, tbl: Seq<FuncSig>) -> bool
    decreases e,
{
    match e {
        Expression::Call(name, args) => (match lookup(tbl, name@) {
            Some(f) => f.params_size == args@.len(),
            None => true,
        }) && arities_ok_args(args@, tbl),
        Expression::GetWithComputedIndex(x) => arities_ok_expr(*x, tbl),
        Expression::Itof(x) => arities_ok_expr(*x, tbl),
        Expression::Ftoi(x) => arities_ok_expr(*x, tbl),
        Expression::Neg(_, x) => arities_ok_expr(*x, tbl),
        Expression::BitNot(x) => arities_ok_expr(*x, tbl),
        Expression::LogiNot(x) => arities_ok_expr(*x, tbl),
        Expression::Add(_, l, r) => arities_ok_expr(*l, tbl) && arities_ok_expr(*r, tbl),
        Expression::Sub(_, l, r) => arities_ok_expr(*l, tbl) && arities_ok_expr(*r, tbl),
        Expression::Mul(_, l, r) => arities_ok_expr(*l, tbl) && arities_ok_expr(*r, tbl),
        Expression::Div(_, l, r) => arities_ok_expr(*l, tbl) && arities_ok_expr(*r, tbl),
        Expression::Rem(_, l, r) => arities_ok_expr(*l, tbl) && arities_ok_expr(*r, tbl),
        Expression::Eq(_, l, r) => arities_ok_expr(*l, tbl) && arities_ok_expr(*r, tbl),
        Expression::Ne(_, l, r) => arities_ok_expr(*l, tbl) && arities_ok_expr(*r, tbl),
        Expression::Lt(_, l, r) => arities_ok_expr(*l, tbl) && arities_ok_expr(*r, tbl),
        Expression::Gt(_, l, r) => arities_ok_expr(*l, tbl) && arities_ok_expr(*r, tbl),
        Expression::Le(_, l, r) => arities_ok_expr(*l, tbl) && arities_ok_expr(*r, tbl),
        Expression::Ge(_, l, r) => arities_ok_expr(*l, tbl) && arities_ok_expr(*r, tbl),
        Expression::And(l, r) => arities_ok_expr(*l, tbl) && arities_ok_expr(*r, tbl),
        Expression::Or(l, r) => arities_ok_expr(*l, tbl) && arities_ok_expr(*r, tbl),
        Expression::Xor(l, r) => arities_ok_expr(*l, tbl) && arities_ok_expr(*r, tbl),
        Expression::Shl(l, r) => arities_ok_expr(*l, tbl) && arities_ok_expr(*r, tbl),
        Expression::Shr(l, r) => arities_ok_expr(*l, tbl) && arities_ok_expr(*r, tbl),
        Expression::ShrUnsigned(l, r) => arities_ok_expr(*l, tbl) && arities_ok_expr(*r, tbl),
        _ => true,
    }
}

/// Every literal local index in the expression lies below the function's
/// `alloc_size`.
pub open spec fn locals_ok_expr(e: Expression, alloc_size: usize) -> bool
    decreases e,
{
    match e {
        Expression::GetWithLiteralIndex(i) => i < alloc_size,
        Expression::Call(_, args) => locals_ok_args(args@, alloc_size),
        Expression::GetWithComputedIndex(x) => locals_ok_expr(*x, alloc_size),
        Expression::Itof(x) => locals_ok_expr(*x, alloc_size),
        Expression::Ftoi(x) => locals_ok_expr(*x, alloc_size),
        Expression::Neg(_, x) => locals_ok_expr(*x, alloc_size),
        Expression::BitNot(x) => locals_ok_expr(*x, alloc_size),
        Expression::LogiNot(x) => locals_ok_expr(*x, alloc_size),
        Expression::Add(_, l, r) => locals_ok_expr(*l, alloc_size) && locals_ok_expr(
            *r,
            alloc_size,
        ),
        Expression::Sub(_, l, r) => locals_ok_expr(*l, alloc_size) && locals_ok_expr(
            *r,
            alloc_size,
        ),
        Expression::Mul(_, l, r) => locals_ok_expr(*l, alloc_size) && locals_ok_expr(
            *r,
            alloc_size,
        ),
        Expression::Div(_, l, r) => locals_ok_expr(*l, alloc_size) && locals_ok_expr(
            *r,
            alloc_size,
        ),
        Expression::Rem(_, l, r) => locals_ok_expr(*l, alloc_size) && locals_ok_expr(
            *r,
            alloc_size,
        ),
        Expression::Eq(_, l, r) => locals_ok_expr(*l, alloc_size) && locals_ok_expr(
            *r,
            alloc_size,
        ),
        Expression::Ne(_, l, r) => locals_ok_expr(*l, alloc_size) && locals_ok_expr(
            *r,
            alloc_size,
        ),
        Expression::Lt(_, l, r) => locals_ok_expr(*l, alloc_size) && locals_ok_expr(
            *r,
            alloc_size,
        ),
        Expression::Gt(_, l, r) => locals_ok_expr(*l, alloc_size) && locals_ok_expr(
            *r,
            alloc_size,
        ),
        Expression::Le(_, l, r) => locals_ok_expr(*l, alloc_size) && locals_ok_expr(
            *r,
            alloc_size,
        ),
        Expression::Ge(_, l, r) => locals_ok_expr(*l, alloc_size) && locals_ok_expr(
            *r,
            alloc_size,
        ),
        Expression::And(l, r) => locals_ok_expr(*l, alloc_size) && locals_ok_expr(*r, alloc_size),
        Expression::Or(l, r) => locals_ok_expr(*l, alloc_size) && locals_ok_expr(*r, alloc_size),
        Expression::Xor(l, r) => locals_ok_expr(*l, alloc_size) && locals_ok_expr(*r, alloc_size),
        Expression::Shl(l, r) => locals_ok_expr(*l, alloc_size) && locals_ok_expr(*r, alloc_size),
        Expression::Shr(l, r) => locals_ok_expr(*l, alloc_size) && locals_ok_expr(*r, alloc_size),
        Expression::ShrUnsigned(l, r) => locals_ok_expr(*l, alloc_size) && locals_ok_expr(
            *r,
            alloc_size,
        ),
        _ => true,
    }
}

/// All three conditions the generator checks on an expression.
pub open spec fn expr_ok(e: Expression, tbl: Seq<FuncSig>, alloc_size: usize) -> bool {
    calls_defined_expr(e, tbl) && arities_ok_expr(e, tbl) && locals_ok_expr(e, alloc_size)
}

pub open spec fn calls_defined_stmt(s: Statement, tbl: Seq<FuncSig>) -> bool
    decreases s,
{
    match s {
        Statement::While { cond, body } => calls_defined_expr(*cond, tbl) && calls_defined_stmt(
            *body,
            tbl,
        ),
        Statement::If { cond, then_branch, unless_branch } => calls_defined_expr(*cond, tbl)
            && calls_defined_stmt(*then_branch, tbl) && calls_defined_stmt(*unless_branch, tbl),
        Statement::SetWithLiteralIndex { index: _, val } => calls_defined_expr(*val, tbl),
        Statement::SetWithComputedIndex { index, val } => calls_defined_expr(*index, tbl)
            && calls_defined_expr(*val, tbl),
        Statement::Block { stmts } => calls_defined_stmts(stmts@, tbl),
        Statement::PutByte { val } => calls_defined_expr(*val, tbl),
        Statement::Return { val } => calls_defined_expr(*val, tbl),
        Statement::Expr { expr } => calls_defined_expr(*expr, tbl),
    }
}

pub open spec fn arities_ok_stmt(s: Statement, tbl: Seq<FuncSig>) -> bool
    decreases s,
{
    match s {
        Statement::While { cond, body } => arities_ok_expr(*cond, tbl) && arities_ok_stmt(
            *body,
            tbl,
        ),
        Statement::If { cond, then_branch, unless_branch } => arities_ok_expr(*cond, tbl)
            && arities_ok_stmt(*then_branch, tbl) && arities_ok_stmt(*unless_branch, tbl),
        Statement::SetWithLiteralIndex { index: _, val } => arities_ok_expr(*val, tbl),
        Statement::SetWithComputedIndex { index, val } => arities_ok_expr(*index, tbl)
            && arities_ok_expr(*val, tbl),
        Statement::Block { stmts } => arities_ok_stmts(stmts@, tbl),
        Statement::PutByte { val } => arities_ok_expr(*val, tbl),
        Statement::Return { val } => arities_ok_expr(*val, tbl),
        Statement::Expr { expr } => arities_ok_expr(*expr, tbl),
    }
}

pub open spec fn locals_ok_stmt(s: Statement, alloc_size: usize) -> bool
    decreases s,
{
    match s {
        Statement::While { cond, body } => locals_ok_expr(*cond, alloc_size) && locals_ok_stmt(
            *body,
            alloc_size,
        ),
        Statement::If { cond, then_branch, unless_branch } => locals_ok_expr(*cond, alloc_size)
            && locals_ok_stmt(*then_branch, alloc_size) && locals_ok_stmt(
            *unless_branch,
            alloc_size,
        ),
        Statement::SetWithLiteralIndex { index, val } => index < alloc_size && locals_ok_expr(
            *val,
            alloc_size,
        ),
        Statement::SetWithComputedIndex { index, val } => locals_ok_expr(*index, alloc_size)
            && locals_ok_expr(*val, alloc_size),
        Statement::Block { stmts } => locals_ok_stmts(stmts@, alloc_size),
        Statement::PutByte { val } => locals_ok_expr(*val, alloc_size),
        Statement::Return { val } => locals_ok_expr(*val, alloc_size),
        Statement::Expr { expr } => locals_ok_expr(*expr, alloc_size),
    }
}

/// All three conditions the generator checks on a statement.
pub open spec fn stmt_ok(s: Statement, tbl: Seq<FuncSig>, alloc_size: usize) -> bool {
    calls_defined_stmt(s, tbl) && arities_ok_stmt(s, tbl) && locals_ok_stmt(s, alloc_size)
}

pub open spec fn calls_defined_args(args: Seq<Expression>, tbl: Seq<FuncSig>) -> bool
    decreases args,
{
    args.len() == 0 || (calls_defined_args(args.drop_last(), tbl) && calls_defined_expr(
        args.last(),
        tbl,
    ))
}

pub open spec fn arities_ok_args(args: Seq<Expression>, tbl: Seq<FuncSig>) -> bool
    decreases args,
{
    args.len() == 0 || (arities_ok_args(args.drop_last(), tbl) && arities_ok_expr(
        args.last(),
        tbl,
    ))
}

pub open spec fn locals_ok_args(args: Seq<Expression>, alloc_size: usize) -> bool
    decreases args,
{
    args.len() == 0 || (locals_ok_args(args.drop_last(), alloc_size) && locals_ok_expr(
        args.last(),
        alloc_size,
    ))
}

pub open spec fn calls_defined_stmts(stmts: Seq<Statement>, tbl: Seq<FuncSig>) -> bool
    decreases stmts,
{
    stmts.len() == 0 || (calls_defined_stmts(stmts.drop_last(), tbl) && calls_defined_stmt(
        stmts.last(),
        tbl,
    ))
}

pub open spec fn arities_ok_stmts(stmts: Seq<Statement>, tbl: Seq<FuncSig>) -> bool
    decreases stmts,
{
    stmts.len() == 0 || (arities_ok_stmts(stmts.drop_last(), tbl) && arities_ok_stmt(
        stmts.last(),
        tbl,
    ))
}

pub open spec fn locals_ok_stmts(stmts: Seq<Statement>, alloc_size: usize) -> bool
    decreases stmts,
{
    stmts.len() == 0 || (locals_ok_stmts(stmts.drop_last(), alloc_size) && locals_ok_stmt(
        stmts.last(),
        alloc_size,
    ))
}

/// A well-formed argument list is well-formed at each position.
proof fn lemma_args_element(args: Seq<Expression>, tbl: Seq<FuncSig>, alloc_size: usize, i: int)
    requires
        0 <= i < args.len(),
    ensures
        calls_defined_args(args, tbl) ==> calls_defined_expr(args[i], tbl),
        arities_ok_args(args, tbl) ==> arities_ok_expr(args[i], tbl),
        locals_ok_args(args, alloc_size) ==> locals_ok_expr(args[i], alloc_size),
    decreases args.len(),
{
    if i < args.len() - 1 {
        lemma_args_element(args.drop_last(), tbl, alloc_size, i);
        assert(args.drop_last()[i] == args[i]);
    }
}

/// A well-formed statement list is well-formed at each position.
proof fn lemma_stmts_element(stmts: Seq<Statement>, tbl: Seq<FuncSig>, alloc_size: usize, i: int)
    requires
        0 <= i < stmts.len(),
    ensures
        calls_defined_stmts(stmts, tbl) ==> calls_defined_stmt(stmts[i], tbl),
        arities_ok_stmts(stmts, tbl) ==> arities_ok_stmt(stmts[i], tbl),
        locals_ok_stmts(stmts, alloc_size) ==> locals_ok_stmt(stmts[i], alloc_size),
    decreases stmts.len(),
{
    if i < stmts.len() - 1 {
        lemma_stmts_element(stmts.drop_last(), tbl, alloc_size, i);
        assert(stmts.drop_last()[i] == stmts[i]);
    }
}

} // verus!

verus! {

// ------------------------------------------------------------------
// Emission, stated
// ------------------------------------------------------------------

/// An instruction carrying no label.
pub open spec fn unlabeled(c: OpCode) -> LabeledOpModel {
    LabeledOpModel { labels: Seq::<Label>::empty(), code: c }
}

/// An instruction that is the target of one label.
pub open spec fn labeled(l: Label, c: OpCode) -> LabeledOpModel {
    LabeledOpModel { labels: seq![l], code: c }
}

/// A leaf expression: produce the value in `R1`, push it.
pub open spec fn load_pair(c: OpCode) -> Seq<LabeledOpModel> {
    seq![unlabeled(c), unlabeled(OpCode::Push(Register::R1))]
}

/// The tail of a binary operator: pop the right operand into `R2`, the left
/// into `R1`, apply, push `R3`.
pub open spec fn binop_tail(c: OpCode) -> Seq<LabeledOpModel> {
    seq![
        unlabeled(OpCode::Pop(Register::R2)),
        unlabeled(OpCode::Pop(Register::R1)),
        unlabeled(c),
        unlabeled(OpCode::Push(Register::R3)),
    ]
}

/// The position a call to `name` jumps to, as a symbolic function label.
pub open spec fn call_target(tbl: Seq<FuncSig>, name: Seq<char>) -> usize {
    match lookup(tbl, name) {
        Some(f) => f.index,
        None => 0,
    }
}

/// The opcodes an expression lowers to. Executed from any stack, they leave
/// exactly one more value on top of it. Expressions never carry labels.
pub open spec fn emit_expr(e: Expression, tbl: Seq<FuncSig>) -> Seq<LabeledOpModel>
    decreases e,
{
    match e {
        Expression::Int(v) => load_pair(OpCode::LoadInt(v, Register::R1)),
        Expression::Float(bits) => load_pair(OpCode::LoadFloat(bits, Register::R1)),
        Expression::GetWithLiteralIndex(i) => load_pair(OpCode::GetVar(i, Register::R1)),
        Expression::GetParam(i) => load_pair(OpCode::GetParam(i, Register::R1)),
        Expression::ReadInputByte => load_pair(OpCode::ReadByteFromStdin(Register::R1)),
        Expression::GetWithComputedIndex(x) => emit_expr(*x, tbl) + seq![
            unlabeled(OpCode::Pop(Register::R1)),
            unlabeled(OpCode::GetVarComputed(Register::R1, Register::R2)),
            unlabeled(OpCode::Push(Register::R2)),
        ],
        Expression::Call(name, args) => emit_args(args@, tbl) + seq![
            unlabeled(OpCode::FnCall(FuncLabel(call_target(tbl, name@)))),
            unlabeled(OpCode::Free(args@.len() as usize)),
            unlabeled(OpCode::Push(Register::RAX)),
            unlabeled(OpCode::LoadInt(0, Register::RAX)),
        ],
        Expression::Neg(t, x) => emit_expr(*x, tbl) + seq![
            unlabeled(OpCode::Pop(Register::R1)),
            unlabeled(pick(t, OpCode::NegFloat(Register::R1, Register::R2), OpCode::NegInt(Register::R1, Register::R2))),
            unlabeled(OpCode::Push(Register::R2)),
        ],
        Expression::BitNot(x) => emit_expr(*x, tbl) + seq![
            unlabeled(OpCode::Pop(Register::R1)),
            unlabeled(OpCode::BitNot(Register::R1, Register::R2)),
            unlabeled(OpCode::Push(Register::R2)),
        ],
        Expression::LogiNot(x) => emit_expr(*x, tbl) + seq![
            unlabeled(OpCode::Pop(Register::R1)),
            unlabeled(OpCode::LogiNot(Register::R1, Register::R2)),
            unlabeled(OpCode::Push(Register::R2)),
        ],
        Expression::Itof(x) => emit_expr(*x, tbl) + seq![
            unlabeled(OpCode::Pop(Register::R1)),
            unlabeled(OpCode::IntToFloat(Register::R1, Register::R2)),
            unlabeled(OpCode::Push(Register::R2)),
        ],
        Expression::Ftoi(x) => emit_expr(*x, tbl) + seq![
            unlabeled(OpCode::Pop(Register::R1)),
            unlabeled(OpCode::FloatToInt(Register::R1, Register::R2)),
            unlabeled(OpCode::Push(Register::R2)),
        ],
        Expression::Add(t, l, r) => emit_expr(*l, tbl) + emit_expr(*r, tbl) + binop_tail(pick(t, OpCode::AddFloat(Register::R1, Register::R2, Register::R3), OpCode::AddInt(Register::R1, Register::R2, Register::R3))),
        Expression::Sub(t, l, r) => emit_expr(*l, tbl) + emit_expr(*r, tbl) + binop_tail(pick(t, OpCode::SubFloat(Register::R1, Register::R2, Register::R3), OpCode::SubInt(Register::R1, Register::R2, Register::R3))),
        Expression::Mul(t, l, r) => emit_expr(*l, tbl) + emit_expr(*r, tbl) + binop_tail(pick(t, OpCode::MulFloat(Register::R1, Register::R2, Register::R3), OpCode::MulInt(Register::R1, Register::R2, Register::R3))),
        Expression::Div(t, l, r) => emit_expr(*l, tbl) + emit_expr(*r, tbl) + binop_tail(pick(t, OpCode::DivFloat(Register::R1, Register::R2, Register::R3), OpCode::DivInt(Register::R1, Register::R2, Register::R3))),
        Expression::Rem(t, l, r) => emit_expr(*l, tbl) + emit_expr(*r, tbl) + binop_tail(pick(t, OpCode::RemFloat(Register::R1, Register::R2, Register::R3), OpCode::RemInt(Register::R1, Register::R2, Register::R3))),
        Expression::Eq(t, l, r) => emit_expr(*l, tbl) + emit_expr(*r, tbl) + binop_tail(pick(t, OpCode::EqFloat(Register::R1, Register::R2, Register::R3), OpCode::EqInt(Register::R1, Register::R2, Register::R3))),
        Expression::Ne(t, l, r) => emit_expr(*l, tbl) + emit_expr(*r, tbl) + binop_tail(pick(t, OpCode::NeFloat(Register::R1, Register::R2, Register::R3), OpCode::NeInt(Register::R1, Register::R2, Register::R3))),
        Expression::Lt(t, l, r) => emit_expr(*l, tbl) + emit_expr(*r, tbl) + binop_tail(pick(t, OpCode::LtFloat(Register::R1, Register::R2, Register::R3), OpCode::LtInt(Register::R1, Register::R2, Register::R3))),
        Expression::Le(t, l, r) => emit_expr(*l, tbl) + emit_expr(*r, tbl) + binop_tail(pick(t, OpCode::LeFloat(Register::R1, Register::R2, Register::R3), OpCode::LeInt(Register::R1, Register::R2, Register::R3))),
        Expression::Gt(t, l, r) => emit_expr(*l, tbl) + emit_expr(*r, tbl) + binop_tail(pick(t, OpCode::LtFloat(Register::R2, Register::R1, Register::R3), OpCode::LtInt(Register::R2, Register::R1, Register::R3))),
        Expression::Ge(t, l, r) => emit_expr(*l, tbl) + emit_expr(*r, tbl) + binop_tail(pick(t, OpCode::LeFloat(Register::R2, Register::R1, Register::R3), OpCode::LeInt(Register::R2, Register::R1, Register::R3))),
        Expression::And(l, r) => emit_expr(*l, tbl) + emit_expr(*r, tbl) + binop_tail(OpCode::And(Register::R1, Register::R2, Register::R3)),
        Expression::Or(l, r) => emit_expr(*l, tbl) + emit_expr(*r, tbl) + binop_tail(OpCode::Or(Register::R1, Register::R2, Register::R3)),
        Expression::Xor(l, r) => emit_expr(*l, tbl) + emit_expr(*r, tbl) + binop_tail(OpCode::Xor(Register::R1, Register::R2, Register::R3)),
        Expression::Shl(l, r) => emit_expr(*l, tbl) + emit_expr(*r, tbl) + binop_tail(OpCode::Shl(Register::R1, Register::R2, Register::R3)),
        Expression::Shr(l, r) => emit_expr(*l, tbl) + emit_expr(*r, tbl) + binop_tail(OpCode::Shr(Register::R1, Register::R2, Register::R3)),
        Expression::ShrUnsigned(l, r) => emit_expr(*l, tbl) + emit_expr(*r, tbl) + binop_tail(OpCode::ShrUnsigned(Register::R1, Register::R2, Register::R3)),
    }
}

/// The opcode family a typed node selects.
pub open spec fn pick(t: OperandType, float_op: OpCode, int_op: OpCode) -> OpCode {
    match t {
        OperandType::Float => float_op,
        OperandType::Int => int_op,
    }
}

/// Call arguments in source order, each leaving one value on the stack.
pub open spec fn emit_args(args: Seq<Expression>, tbl: Seq<FuncSig>) -> Seq<LabeledOpModel>
    decreases args,
{
    if args.len() == 0 {
        Seq::<LabeledOpModel>::empty()
    } else {
        emit_args(args.drop_last(), tbl) + emit_expr(args.last(), tbl)
    }
}

} // verus!

verus! {

// ------------------------------------------------------------------
// Emission state
// ------------------------------------------------------------------

/// The views of a buffer of labeled instructions.
pub open spec fn ops_model(s: Seq<LabeledOpCode>) -> Seq<LabeledOpModel> {
    Seq::new(s.len(), |i: int| s[i]@)
}

/// The growing opcode buffer of one function and the label counter shared by
/// the whole compilation.
pub struct State {
    pub codes: Vec<LabeledOpCode>,
    pub next_label_val: usize,
}

/// The mathematical view of the emission state.
pub ghost struct StateModel {
    pub ops: Seq<LabeledOpModel>,
    pub next: int,
}

impl View for State {
    type V = StateModel;

    open spec fn view(&self) -> StateModel {
        StateModel { ops: ops_model(self.codes@), next: self.next_label_val as int }
    }
}

impl State {
    /// An empty buffer whose label counter continues from `next_label_val`.
    pub fn new(next_label_val: usize) -> (s: State)
        ensures
            s@.ops == Seq::<LabeledOpModel>::empty(),
            s@.next == next_label_val as int,
    {
        let s = State { codes: Vec::new(), next_label_val };
        proof {
            assert(s@.ops =~= Seq::<LabeledOpModel>::empty());
        }
        s
    }

    /// Appends one instruction.
    pub fn push(&mut self, code: LabeledOpCode)
        ensures
            final(self)@.ops == old(self)@.ops.push(code@),
            final(self)@.next == old(self)@.next,
    {
        let ghost c = code@;
        self.codes.push(code);
        proof {
            assert(self@.ops =~= old(self)@.ops.push(c));
        }
    }

    /// Draws a fresh label from the shared counter; `None` once the counter
    /// has exhausted the machine word.
    pub fn new_label(&mut self) -> (r: Option<Label>)
        ensures
            final(self)@.ops == old(self)@.ops,
            old(self)@.next < usize::MAX as int ==> r == Some(Label(old(self).next_label_val))
                && final(self)@.next == old(self)@.next + 1,
            old(self)@.next == usize::MAX as int ==> r is None && final(self)@.next == old(
                self,
            )@.next,
    {
        if self.next_label_val == usize::MAX {
            return None;
        }
        let l = Label(self.next_label_val);
        self.next_label_val = self.next_label_val + 1;
        Some(l)
    }

    /// Hands the finished buffer and the counter back.
    pub fn into_inner(self) -> (r: (Vec<LabeledOpCode>, usize))
        ensures
            ops_model(r.0@) == self@.ops,
            r.1 as int == self@.next,
    {
        (self.codes, self.next_label_val)
    }
}

// ------------------------------------------------------------------
// Expression lowering
// ------------------------------------------------------------------

/// Appends a leaf pair: the producing opcode, then a push of `R1`.
fn push_load(state: &mut State, c: OpCode)
    ensures
        final(state)@.next == old(state)@.next,
        final(state)@.ops == old(state)@.ops + load_pair(c),
{
    state.push(LabeledOpCode::without_label(c));
    state.push(LabeledOpCode::without_label(OpCode::Push(Register::R1)));
    proof {
        assert(state@.ops =~= old(state)@.ops + load_pair(c));
    }
}

/// Appends a unary tail: pop into `R1`, apply `c`, push `R2`.
fn push_unop_tail(state: &mut State, c: OpCode)
    ensures
        final(state)@.next == old(state)@.next,
        final(state)@.ops == old(state)@.ops + seq![
            unlabeled(OpCode::Pop(Register::R1)),
            unlabeled(c),
            unlabeled(OpCode::Push(Register::R2)),
        ],
{
    state.push(LabeledOpCode::without_label(OpCode::Pop(Register::R1)));
    state.push(LabeledOpCode::without_label(c));
    state.push(LabeledOpCode::without_label(OpCode::Push(Register::R2)));
    proof {
        assert(state@.ops =~= old(state)@.ops + seq![
            unlabeled(OpCode::Pop(Register::R1)),
            unlabeled(c),
            unlabeled(OpCode::Push(Register::R2)),
        ]);
    }
}

/// Appends a binary tail: pop into `R2` and `R1`, apply `c`, push `R3`.
fn push_binop_tail(state: &mut State, c: OpCode)
    ensures
        final(state)@.next == old(state)@.next,
        final(state)@.ops == old(state)@.ops + binop_tail(c),
{
    state.push(LabeledOpCode::without_label(OpCode::Pop(Register::R2)));
    state.push(LabeledOpCode::without_label(OpCode::Pop(Register::R1)));
    state.push(LabeledOpCode::without_label(c));
    state.push(LabeledOpCode::without_label(OpCode::Push(Register::R3)));
    proof {
        assert(state@.ops =~= old(state)@.ops + binop_tail(c));
    }
}

} // verus!

verus! {

/// Lowers one expression onto the buffer: the appended opcodes are exactly
/// [`emit_expr`], and the label counter is untouched, as expressions never
/// carry labels. Fails, appending arbitrary code, exactly when a call site
/// is broken or a literal local index is out of range.
#[verifier::rlimit(100)]
fn generate_expression_code(
    expr: &Expression,
    state: &mut State,
    table: &Vec<FuncMeta>,
    alloc_size: usize,
) -> (r: Result<(), GenError>)
    ensures
        final(state)@.next == old(state)@.next,
        r is Ok <==> expr_ok(*expr, table_model(table@), alloc_size),
        r is Ok ==> final(state)@.ops == old(state)@.ops + emit_expr(*expr, table_model(table@)),
        r == Err::<(), GenError>(GenError::UndefinedFunction) ==> !calls_defined_expr(*expr, table_model(table@)),
        r == Err::<(), GenError>(GenError::ArityMismatch) ==> !arities_ok_expr(*expr, table_model(table@)),
        r == Err::<(), GenError>(GenError::LocalIndexOutOfRange) ==> !locals_ok_expr(*expr, alloc_size),
        r != Err::<(), GenError>(GenError::MissingMain) && r != Err::<(), GenError>(GenError::TooManyLabels),
    decreases *expr, 1int,
{
    match expr {
        Expression::Int(v) => {
            push_load(state, OpCode::LoadInt(*v, Register::R1));
            proof {
                assert(state@.ops =~= old(state)@.ops + emit_expr(*expr, table_model(table@)));
            }
            Ok(())
        },
        Expression::Float(bits) => {
            push_load(state, OpCode::LoadFloat(*bits, Register::R1));
            proof {
                assert(state@.ops =~= old(state)@.ops + emit_expr(*expr, table_model(table@)));
            }
            Ok(())
        },
        Expression::GetWithLiteralIndex(i) => {
            if *i >= alloc_size {
                return Err(GenError::LocalIndexOutOfRange);
            }
            push_load(state, OpCode::GetVar(*i, Register::R1));
            proof {
                assert(state@.ops =~= old(state)@.ops + emit_expr(*expr, table_model(table@)));
            }
            Ok(())
        },
        Expression::GetParam(i) => {
            push_load(state, OpCode::GetParam(*i, Register::R1));
            proof {
                assert(state@.ops =~= old(state)@.ops + emit_expr(*expr, table_model(table@)));
            }
            Ok(())
        },
        Expression::ReadInputByte => {
            push_load(state, OpCode::ReadByteFromStdin(Register::R1));
            proof {
                assert(state@.ops =~= old(state)@.ops + emit_expr(*expr, table_model(table@)));
            }
            Ok(())
        },
        Expression::Call(funcname, args) => {
            let looked = find_func(table, funcname);
            match looked {
                None => Err(GenError::UndefinedFunction),
                Some((params_size, index)) => {
                    if params_size != args.len() {
                        return Err(GenError::ArityMismatch);
                    }
                    let n_args = args.len();
                    let mut i: usize = 0;
                    proof {
                        assert(args@.take(0) =~= Seq::<Expression>::empty());
                    }
                    while i < n_args
                        invariant
                            *expr == Expression::Call(*funcname, *args),
                            n_args == args@.len(),
                            i <= n_args,
                            state@.next == old(state)@.next,
                            state@.ops == old(state)@.ops + emit_args(
                                args@.take(i as int),
                                table_model(table@),
                            ),
                            calls_defined_args(args@.take(i as int), table_model(table@)),
                            arities_ok_args(args@.take(i as int), table_model(table@)),
                            locals_ok_args(args@.take(i as int), alloc_size),
                        decreases n_args - i,
                    {
                        proof {
                            let ghost ev = *expr;
                            match ev {
                                Expression::Call(n2, a2) => {
                                    assert(decreases_to!(ev => a2));
                                    assert(decreases_to!(a2 => a2@));
                                    assert(decreases_to!(a2@ => a2@[i as int]));
                                    assert(decreases_to!(ev => a2@[i as int]));
                                    assert(a2@[i as int] == args@[i as int]);
                                },
                                _ => {
                                    assert(false);
                                },
                            }
                        }
                        match generate_expression_code(&args[i], state, table, alloc_size) {
                            Err(e) => {
                                proof {
                                    lemma_args_element(
                                        args@,
                                        table_model(table@),
                                        alloc_size,
                                        i as int,
                                    );
                                }
                                return Err(e);
                            },
                            Ok(_) => {},
                        }
                        proof {
                            assert(args@.take(i as int + 1).drop_last() =~= args@.take(i as int));
                            assert(args@.take(i as int + 1).last() == args@[i as int]);
                        }
                        i = i + 1;
                    }
                    proof {
                        assert(args@.take(n_args as int) =~= args@);
                    }
                    state.push(LabeledOpCode::without_label(OpCode::FnCall(FuncLabel(index))));
                    state.push(LabeledOpCode::without_label(OpCode::Free(args.len())));
                    state.push(LabeledOpCode::without_label(OpCode::Push(Register::RAX)));
                    state.push(LabeledOpCode::without_label(OpCode::LoadInt(0, Register::RAX)));
            proof {
                assert(state@.ops =~= old(state)@.ops + emit_expr(*expr, table_model(table@)));
            }
                    Ok(())
                },
            }
        },
        Expression::Add(..) | Expression::Sub(..) | Expression::Mul(..) | Expression::Div(..) | Expression::Rem(..) | Expression::Eq(..) | Expression::Ne(..) | Expression::Lt(..) | Expression::Gt(..) | Expression::Le(..) | Expression::Ge(..) | Expression::And(..) | Expression::Or(..) | Expression::Xor(..) | Expression::Shl(..) | Expression::Shr(..) | Expression::ShrUnsigned(..) => generate_binary_code(expr, state, table, alloc_size),
        Expression::GetWithComputedIndex(..) | Expression::Neg(..) | Expression::BitNot(..) | Expression::LogiNot(..) | Expression::Itof(..) | Expression::Ftoi(..) => generate_unary_code(expr, state, table, alloc_size),
    }
}

} // verus!

verus! {

/// Lowers one binary-operator expression: both operands in order, then the
/// pop-apply-push tail. Same contract as [`generate_expression_code`].
#[verifier::rlimit(100)]
fn generate_binary_code(
    expr: &Expression,
    state: &mut State,
    table: &Vec<FuncMeta>,
    alloc_size: usize,
) -> (r: Result<(), GenError>)
    requires
        expr is Add || expr is Sub || expr is Mul || expr is Div || expr is Rem || expr is Eq || expr is Ne || expr is Lt || expr is Gt || expr is Le || expr is Ge || expr is And || expr is Or || expr is Xor || expr is Shl || expr is Shr || expr is ShrUnsigned,
    ensures
        final(state)@.next == old(state)@.next,
        r is Ok <==> expr_ok(*expr, table_model(table@), alloc_size),
        r is Ok ==> final(state)@.ops == old(state)@.ops + emit_expr(*expr, table_model(table@)),
        r == Err::<(), GenError>(GenError::UndefinedFunction) ==> !calls_defined_expr(*expr, table_model(table@)),
        r == Err::<(), GenError>(GenError::ArityMismatch) ==> !arities_ok_expr(*expr, table_model(table@)),
        r == Err::<(), GenError>(GenError::LocalIndexOutOfRange) ==> !locals_ok_expr(*expr, alloc_size),
        r != Err::<(), GenError>(GenError::MissingMain) && r != Err::<(), GenError>(GenError::TooManyLabels),
    decreases *expr, 0int,
{
    match expr {
        Expression::Add(t, l, r) => {
            match generate_expression_code(l, state, table, alloc_size) {
                Err(e) => {
                    return Err(e);
                },
                Ok(_) => {},
            }
            match generate_expression_code(r, state, table, alloc_size) {
                Err(e) => {
                    return Err(e);
                },
                Ok(_) => {},
            }
            let c = match t {
                OperandType::Float => OpCode::AddFloat(Register::R1, Register::R2, Register::R3),
                OperandType::Int => OpCode::AddInt(Register::R1, Register::R2, Register::R3),
            };
            push_binop_tail(state, c);
            proof {
                assert(state@.ops =~= old(state)@.ops + emit_expr(*expr, table_model(table@)));
            }
            Ok(())
        },
        Expression::Sub(t, l, r) => {
            match generate_expression_code(l, state, table, alloc_size) {
                Err(e) => {
                    return Err(e);
                },
                Ok(_) => {},
            }
            match generate_expression_code(r, state, table, alloc_size) {
                Err(e) => {
                    return Err(e);
                },
                Ok(_) => {},
            }
            let c = match t {
                OperandType::Float => OpCode::SubFloat(Register::R1, Register::R2, Register::R3),
                OperandType::Int => OpCode::SubInt(Register::R1, Register::R2, Register::R3),
            };
            push_binop_tail(state, c);
            proof {
                assert(state@.ops =~= old(state)@.ops + emit_expr(*expr, table_model(table@)));
            }
            Ok(())
        },
        Expression::Mul(t, l, r) => {
            match generate_expression_code(l, state, table, alloc_size) {
                Err(e) => {
                    return Err(e);
                },
                Ok(_) => {},
            }
            match generate_expression_code(r, state, table, alloc_size) {
                Err(e) => {
                    return Err(e);
                },
                Ok(_) => {},
            }
            let c = match t {
                OperandType::Float => OpCode::MulFloat(Register::R1, Register::R2, Register::R3),
                OperandType::Int => OpCode::MulInt(Register::R1, Register::R2, Register::R3),
            };
            push_binop_tail(state, c);
            proof {
                assert(state@.ops =~= old(state)@.ops + emit_expr(*expr, table_model(table@)));
            }
            Ok(())
        },
        Expression::Div(t, l, r) => {
            match generate_expression_code(l, state, table, alloc_size) {
                Err(e) => {
                    return Err(e);
                },
                Ok(_) => {},
            }
            match generate_expression_code(r, state, table, alloc_size) {
                Err(e) => {
                    return Err(e);
                },
                Ok(_) => {},
            }
            let c = match t {
                OperandType::Float => OpCode::DivFloat(Register::R1, Register::R2, Register::R3),
                OperandType::Int => OpCode::DivInt(Register::R1, Register::R2, Register::R3),
            };
            push_binop_tail(state, c);
            proof {
                assert(state@.ops =~= old(state)@.ops + emit_expr(*expr, table_model(table@)));
            }
            Ok(())
        },
        Expression::Rem(t, l, r) => {
            match generate_expression_code(l, state, table, alloc_size) {
                Err(e) => {
                    return Err(e);
                },
                Ok(_) => {},
            }
            match generate_expression_code(r, state, table, alloc_size) {
                Err(e) => {
                    return Err(e);
                },
                Ok(_) => {},
            }
            let c = match t {
                OperandType::Float => OpCode::RemFloat(Register::R1, Register::R2, Register::R3),
                OperandType::Int => OpCode::RemInt(Register::R1, Register::R2, Register::R3),
            };
            push_binop_tail(state, c);
            proof {
                assert(state@.ops =~= old(state)@.ops + emit_expr(*expr, table_model(table@)));
            }
            Ok(())
        },
        Expression::Eq(t, l, r) => {
            match generate_expression_code(l, state, table, alloc_size) {
                Err(e) => {
                    return Err(e);
                },
                Ok(_) => {},
            }
            match generate_expression_code(r, state, table, alloc_size) {
                Err(e) => {
                    return Err(e);
                },
                Ok(_) => {},
            }
            let c = match t {
                OperandType::Float => OpCode::EqFloat(Register::R1, Register::R2, Register::R3),
                OperandType::Int => OpCode::EqInt(Register::R1, Register::R2, Register::R3),
            };
            push_binop_tail(state, c);
            proof {
                assert(state@.ops =~= old(state)@.ops + emit_expr(*expr, table_model(table@)));
            }
            Ok(())
        },
        Expression::Ne(t, l, r) => {
            match generate_expression_code(l, state, table, alloc_size) {
                Err(e) => {
                    return Err(e);
                },
                Ok(_) => {},
            }
            match generate_expression_code(r, state, table, alloc_size) {
                Err(e) => {
                    return Err(e);
                },
                Ok(_) => {},
            }
            let c = match t {
                OperandType::Float => OpCode::NeFloat(Register::R1, Register::R2, Register::R3),
                OperandType::Int => OpCode::NeInt(Register::R1, Register::R2, Register::R3),
            };
            push_binop_tail(state, c);
            proof {
                assert(state@.ops =~= old(state)@.ops + emit_expr(*expr, table_model(table@)));
            }
            Ok(())
        },
        Expression::Lt(t, l, r) => {
            match generate_expression_code(l, state, table, alloc_size) {
                Err(e) => {
                    return Err(e);
                },
                Ok(_) => {},
            }
            match generate_expression_code(r, state, table, alloc_size) {
                Err(e) => {
                    return Err(e);
                },
                Ok(_) => {},
            }
            let c = match t {
                OperandType::Float => OpCode::LtFloat(Register::R1, Register::R2, Register::R3),
                OperandType::Int => OpCode::LtInt(Register::R1, Register::R2, Register::R3),
            };
            push_binop_tail(state, c);
            proof {
                assert(state@.ops =~= old(state)@.ops + emit_expr(*expr, table_model(table@)));
            }
            Ok(())
        },
        Expression::Gt(t, l, r) => {
            match generate_expression_code(l, state, table, alloc_size) {
                Err(e) => {
                    return Err(e);
                },
                Ok(_) => {},
            }
            match generate_expression_code(r, state, table, alloc_size) {
                Err(e) => {
                    return Err(e);
                },
                Ok(_) => {},
            }
            let c = match t {
                OperandType::Float => OpCode::LtFloat(Register::R2, Register::R1, Register::R3),
                OperandType::Int => OpCode::LtInt(Register::R2, Register::R1, Register::R3),
            };
            push_binop_tail(state, c);
            proof {
                assert(state@.ops =~= old(state)@.ops + emit_expr(*expr, table_model(table@)));
            }
            Ok(())
        },
        Expression::Le(t, l, r) => {
            match generate_expression_code(l, state, table, alloc_size) {
                Err(e) => {
                    return Err(e);
                },
                Ok(_) => {},
            }
            match generate_expression_code(r, state, table, alloc_size) {
                Err(e) => {
                    return Err(e);
                },
                Ok(_) => {},
            }
            let c = match t {
                OperandType::Float => OpCode::LeFloat(Register::R1, Register::R2, Register::R3),
                OperandType::Int => OpCode::LeInt(Register::R1, Register::R2, Register::R3),
            };
            push_binop_tail(state, c);
            proof {
                assert(state@.ops =~= old(state)@.ops + emit_expr(*expr, table_model(table@)));
            }
            Ok(())
        },
        Expression::Ge(t, l, r) => {
            match generate_expression_code(l, state, table, alloc_size) {
                Err(e) => {
                    return Err(e);
                },
                Ok(_) => {},
            }
            match generate_expression_code(r, state, table, alloc_size) {
                Err(e) => {
                    return Err(e);
                },
                Ok(_) => {},
            }
            let c = match t {
                OperandType::Float => OpCode::LeFloat(Register::R2, Register::R1, Register::R3),
                OperandType::Int => OpCode::LeInt(Register::R2, Register::R1, Register::R3),
            };
            push_binop_tail(state, c);
            proof {
                assert(state@.ops =~= old(state)@.ops + emit_expr(*expr, table_model(table@)));
            }
            Ok(())
        },
        Expression::And(l, r) => {
            match generate_expression_code(l, state, table, alloc_size) {
                Err(e) => {
                    return Err(e);
                },
                Ok(_) => {},
            }
            match generate_expression_code(r, state, table, alloc_size) {
                Err(e) => {
                    return Err(e);
                },
                Ok(_) => {},
            }
            let c = OpCode::And(Register::R1, Register::R2, Register::R3);
            push_binop_tail(state, c);
            proof {
                assert(state@.ops =~= old(state)@.ops + emit_expr(*expr, table_model(table@)));
            }
            Ok(())
        },
        Expression::Or(l, r) => {
            match generate_expression_code(l, state, table, alloc_size) {
                Err(e) => {
                    return Err(e);
                },
                Ok(_) => {},
            }
            match generate_expression_code(r, state, table, alloc_size) {
                Err(e) => {
                    return Err(e);
                },
                Ok(_) => {},
            }
            let c = OpCode::Or(Register::R1, Register::R2, Register::R3);
            push_binop_tail(state, c);
            proof {
                assert(state@.ops =~= old(state)@.ops + emit_expr(*expr, table_model(table@)));
            }
            Ok(())
        },
        Expression::Xor(l, r) => {
            match generate_expression_code(l, state, table, alloc_size) {
                Err(e) => {
                    return Err(e);
                },
                Ok(_) => {},
            }
            match generate_expression_code(r, state, table, alloc_size) {
                Err(e) => {
                    return Err(e);
                },
                Ok(_) => {},
            }
            let c = OpCode::Xor(Register::R1, Register::R2, Register::R3);
            push_binop_tail(state, c);
            proof {
                assert(state@.ops =~= old(state)@.ops + emit_expr(*expr, table_model(table@)));
            }
            Ok(())
        },
        Expression::Shl(l, r) => {
            match generate_expression_code(l, state, table, alloc_size) {
                Err(e) => {
                    return Err(e);
                },
                Ok(_) => {},
            }
            match generate_expression_code(r, state, table, alloc_size) {
                Err(e) => {
                    return Err(e);
                },
                Ok(_) => {},
            }
            let c = OpCode::Shl(Register::R1, Register::R2, Register::R3);
            push_binop_tail(state, c);
            proof {
                assert(state@.ops =~= old(state)@.ops + emit_expr(*expr, table_model(table@)));
            }
            Ok(())
        },
        Expression::Shr(l, r) => {
            match generate_expression_code(l, state, table, alloc_size) {
                Err(e) => {
                    return Err(e);
                },
                Ok(_) => {},
            }
            match generate_expression_code(r, state, table, alloc_size) {
                Err(e) => {
                    return Err(e);
                },
                Ok(_) => {},
            }
            let c = OpCode::Shr(Register::R1, Register::R2, Register::R3);
            push_binop_tail(state, c);
            proof {
                assert(state@.ops =~= old(state)@.ops + emit_expr(*expr, table_model(table@)));
            }
            Ok(())
        },
        Expression::ShrUnsigned(l, r) => {
            match generate_expression_code(l, state, table, alloc_size) {
                Err(e) => {
                    return Err(e);
                },
                Ok(_) => {},
            }
            match generate_expression_code(r, state, table, alloc_size) {
                Err(e) => {
                    return Err(e);
                },
                Ok(_) => {},
            }
            let c = OpCode::ShrUnsigned(Register::R1, Register::R2, Register::R3);
            push_binop_tail(state, c);
            proof {
                assert(state@.ops =~= old(state)@.ops + emit_expr(*expr, table_model(table@)));
            }
            Ok(())
        },
        _ => {
            proof {
                assert(false);
            }
            Ok(())
        },
    }
}

} // verus!

verus! {

/// Lowers one unary-operator expression: the operand, then the
/// pop-apply-push tail. Same contract as [`generate_expression_code`].
#[verifier::rlimit(100)]
fn generate_unary_code(
    expr: &Expression,
    state: &mut State,
    table: &Vec<FuncMeta>,
    alloc_size: usize,
) -> (r: Result<(), GenError>)
    requires
        expr is GetWithComputedIndex || expr is Neg || expr is BitNot || expr is LogiNot || expr is Itof || expr is Ftoi,
    ensures
        final(state)@.next == old(state)@.next,
        r is Ok <==> expr_ok(*expr, table_model(table@), alloc_size),
        r is Ok ==> final(state)@.ops == old(state)@.ops + emit_expr(*expr, table_model(table@)),
        r == Err::<(), GenError>(GenError::UndefinedFunction) ==> !calls_defined_expr(*expr, table_model(table@)),
        r == Err::<(), GenError>(GenError::ArityMismatch) ==> !arities_ok_expr(*expr, table_model(table@)),
        r == Err::<(), GenError>(GenError::LocalIndexOutOfRange) ==> !locals_ok_expr(*expr, alloc_size),
        r != Err::<(), GenError>(GenError::MissingMain) && r != Err::<(), GenError>(GenError::TooManyLabels),
    decreases *expr, 0int,
{
    match expr {
        Expression::GetWithComputedIndex(x) => {
            match generate_expression_code(x, state, table, alloc_size) {
                Err(e) => {
                    return Err(e);
                },
                Ok(_) => {},
            }
            push_unop_tail(state, OpCode::GetVarComputed(Register::R1, Register::R2));
            proof {
                assert(state@.ops =~= old(state)@.ops + emit_expr(*expr, table_model(table@)));
            }
            Ok(())
        },
        Expression::Neg(t, x) => {
            match generate_expression_code(x, state, table, alloc_size) {
                Err(e) => {
                    return Err(e);
                },
                Ok(_) => {},
            }
            let c = match t {
                OperandType::Float => OpCode::NegFloat(Register::R1, Register::R2),
                OperandType::Int => OpCode::NegInt(Register::R1, Register::R2),
            };
            push_unop_tail(state, c);
            proof {
                assert(state@.ops =~= old(state)@.ops + emit_expr(*expr, table_model(table@)));
            }
            Ok(())
        },
        Expression::BitNot(x) => {
            match generate_expression_code(x, state, table, alloc_size) {
                Err(e) => {
                    return Err(e);
                },
                Ok(_) => {},
            }
            push_unop_tail(state, OpCode::BitNot(Register::R1, Register::R2));
            proof {
                assert(state@.ops =~= old(state)@.ops + emit_expr(*expr, table_model(table@)));
            }
            Ok(())
        },
        Expression::LogiNot(x) => {
            match generate_expression_code(x, state, table, alloc_size) {
                Err(e) => {
                    return Err(e);
                },
                Ok(_) => {},
            }
            push_unop_tail(state, OpCode::LogiNot(Register::R1, Register::R2));
            proof {
                assert(state@.ops =~= old(state)@.ops + emit_expr(*expr, table_model(table@)));
            }
            Ok(())
        },
        Expression::Itof(x) => {
            match generate_expression_code(x, state, table, alloc_size) {
                Err(e) => {
                    return Err(e);
                },
                Ok(_) => {},
            }
            push_unop_tail(state, OpCode::IntToFloat(Register::R1, Register::R2));
            proof {
                assert(state@.ops =~= old(state)@.ops + emit_expr(*expr, table_model(table@)));
            }
            Ok(())
        },
        Expression::Ftoi(x) => {
            match generate_expression_code(x, state, table, alloc_size) {
                Err(e) => {
                    return Err(e);
                },
                Ok(_) => {},
            }
            push_unop_tail(state, OpCode::FloatToInt(Register::R1, Register::R2));
            proof {
                assert(state@.ops =~= old(state)@.ops + emit_expr(*expr, table_model(table@)));
            }
            Ok(())
        },
        _ => {
            proof {
                assert(false);
            }
            Ok(())
        },
    }
}

} // verus!


verus! {

// ------------------------------------------------------------------
// Statement lowering, stated
// ------------------------------------------------------------------

/// The opcodes a statement lowers to and the label counter afterwards.
/// Executed from any stack, a statement's opcodes leave its length unchanged
/// (`Return` additionally unwinds the frame).
pub open spec fn emit_stmt(s: Statement, tbl: Seq<FuncSig>, c: int) -> (Seq<LabeledOpModel>, int)
    decreases s,
{
    match s {
        Statement::Expr { expr } => (
            emit_expr(*expr, tbl) + seq![unlabeled(OpCode::Free(1))],
            c,
        ),
        Statement::PutByte { val } => (
            emit_expr(*val, tbl) + seq![
                unlabeled(OpCode::Pop(Register::R1)),
                unlabeled(OpCode::PutByte(Register::R1)),
            ],
            c,
        ),
        Statement::Return { val } => (
            emit_expr(*val, tbl) + seq![
                unlabeled(OpCode::Pop(Register::RAX)),
                unlabeled(OpCode::MovEbpToEspAndPopRbp),
                unlabeled(OpCode::Ret),
            ],
            c,
        ),
        Statement::SetWithLiteralIndex { index, val } => (
            emit_expr(*val, tbl) + seq![
                unlabeled(OpCode::Pop(Register::R1)),
                unlabeled(OpCode::SetVar(index, Register::R1)),
            ],
            c,
        ),
        Statement::SetWithComputedIndex { index, val } => (
            emit_expr(*index, tbl) + emit_expr(*val, tbl) + seq![
                unlabeled(OpCode::Pop(Register::R2)),
                unlabeled(OpCode::Pop(Register::R1)),
                unlabeled(OpCode::SetVarComputed(Register::R1, Register::R2)),
            ],
            c,
        ),
        Statement::Block { stmts } => emit_stmts(stmts@, tbl, c),
        Statement::If { cond, then_branch, unless_branch } => {
            let l_else = Label(c as usize);
            let l_end = Label((c + 1) as usize);
            let t = emit_stmt(*then_branch, tbl, c + 2);
            let u = emit_stmt(*unless_branch, tbl, t.1);
            (
                emit_expr(*cond, tbl) + seq![
                    unlabeled(OpCode::Pop(Register::R1)),
                    unlabeled(OpCode::JmpIfZero(Register::R1, l_else)),
                ] + t.0 + seq![unlabeled(OpCode::Jmp(l_end)), labeled(l_else, OpCode::Nop)] + u.0
                    + seq![labeled(l_end, OpCode::Nop)],
                u.1,
            )
        },
        Statement::While { cond, body } => {
            let l_begin = Label(c as usize);
            let l_end = Label((c + 1) as usize);
            let b = emit_stmt(*body, tbl, c + 2);
            (
                seq![labeled(l_begin, OpCode::Nop)] + emit_expr(*cond, tbl) + seq![
                    unlabeled(OpCode::Pop(Register::R1)),
                    unlabeled(OpCode::JmpIfZero(Register::R1, l_end)),
                ] + b.0 + seq![unlabeled(OpCode::Jmp(l_begin)), labeled(l_end, OpCode::Nop)],
                b.1,
            )
        },
    }
}

/// A run of statements in order, threading the label counter.
pub open spec fn emit_stmts(ss: Seq<Statement>, tbl: Seq<FuncSig>, c: int) -> (
    Seq<LabeledOpModel>,
    int,
)
    decreases ss,
{
    if ss.len() == 0 {
        (Seq::<LabeledOpModel>::empty(), c)
    } else {
        let p = emit_stmts(ss.drop_last(), tbl, c);
        let q = emit_stmt(ss.last(), tbl, p.1);
        (p.0 + q.0, q.1)
    }
}

/// The label counter never moves backwards.
proof fn lemma_stmt_counter_monotone(s: Statement, tbl: Seq<FuncSig>, c: int)
    ensures
        emit_stmt(s, tbl, c).1 >= c,
    decreases s,
{
    match s {
        Statement::Block { stmts } => {
            lemma_stmts_counter_monotone(stmts@, tbl, c);
        },
        Statement::If { cond, then_branch, unless_branch } => {
            lemma_stmt_counter_monotone(*then_branch, tbl, c + 2);
            lemma_stmt_counter_monotone(*unless_branch, tbl, emit_stmt(*then_branch, tbl, c + 2).1);
        },
        Statement::While { cond, body } => {
            lemma_stmt_counter_monotone(*body, tbl, c + 2);
        },
        _ => {},
    }
}

proof fn lemma_stmts_counter_monotone(ss: Seq<Statement>, tbl: Seq<FuncSig>, c: int)
    ensures
        emit_stmts(ss, tbl, c).1 >= c,
    decreases ss,
{
    if ss.len() > 0 {
        lemma_stmts_counter_monotone(ss.drop_last(), tbl, c);
        lemma_stmt_counter_monotone(ss.last(), tbl, emit_stmts(ss.drop_last(), tbl, c).1);
    }
}

/// The whole run's final counter is at least any prefix's final counter.
proof fn lemma_stmts_prefix_counter(ss: Seq<Statement>, tbl: Seq<FuncSig>, c: int, k: int)
    requires
        0 <= k <= ss.len(),
    ensures
        emit_stmts(ss, tbl, c).1 >= emit_stmts(ss.take(k), tbl, c).1,
    decreases ss.len(),
{
    if k == ss.len() {
        assert(ss.take(k) =~= ss);
    } else {
        assert(ss.drop_last().take(k) =~= ss.take(k));
        lemma_stmts_prefix_counter(ss.drop_last(), tbl, c, k);
        lemma_stmt_counter_monotone(ss.last(), tbl, emit_stmts(ss.drop_last(), tbl, c).1);
    }
}

} // verus!

verus! {

/// Lowers one statement onto the buffer: the appended opcodes and the new
/// label counter are exactly [`emit_stmt`]. Fails exactly when the statement
/// is broken somewhere or the label counter would pass the machine word.
#[verifier::rlimit(100)]
fn generate_statement_code(
    stmt: &Statement,
    state: &mut State,
    table: &Vec<FuncMeta>,
    alloc_size: usize,
) -> (r: Result<(), GenError>)
    ensures
        r is Ok <==> stmt_ok(*stmt, table_model(table@), alloc_size) && emit_stmt(
            *stmt,
            table_model(table@),
            old(state)@.next,
        ).1 <= usize::MAX as int,
        r is Ok ==> final(state)@.ops == old(state)@.ops + emit_stmt(
            *stmt,
            table_model(table@),
            old(state)@.next,
        ).0 && final(state)@.next == emit_stmt(*stmt, table_model(table@), old(state)@.next).1,
        r == Err::<(), GenError>(GenError::UndefinedFunction) ==> !calls_defined_stmt(
            *stmt,
            table_model(table@),
        ),
        r == Err::<(), GenError>(GenError::ArityMismatch) ==> !arities_ok_stmt(
            *stmt,
            table_model(table@),
        ),
        r == Err::<(), GenError>(GenError::LocalIndexOutOfRange) ==> !locals_ok_stmt(
            *stmt,
            alloc_size,
        ),
        r == Err::<(), GenError>(GenError::TooManyLabels) ==> emit_stmt(
            *stmt,
            table_model(table@),
            old(state)@.next,
        ).1 > usize::MAX as int,
        r != Err::<(), GenError>(GenError::MissingMain),
    decreases *stmt, 1int,
{
    match stmt {
        Statement::Expr { expr } => {
            match generate_expression_code(expr, state, table, alloc_size) {
                Err(e) => {
                    return Err(e);
                },
                Ok(_) => {},
            }
            state.push(LabeledOpCode::without_label(OpCode::Free(1)));
            proof {
                assert(state@.ops =~= old(state)@.ops + emit_stmt(
                    *stmt,
                    table_model(table@),
                    old(state)@.next,
                ).0);
            }
            Ok(())
        },
        Statement::PutByte { val } => {
            match generate_expression_code(val, state, table, alloc_size) {
                Err(e) => {
                    return Err(e);
                },
                Ok(_) => {},
            }
            state.push(LabeledOpCode::without_label(OpCode::Pop(Register::R1)));
            state.push(LabeledOpCode::without_label(OpCode::PutByte(Register::R1)));
            proof {
                assert(state@.ops =~= old(state)@.ops + emit_stmt(
                    *stmt,
                    table_model(table@),
                    old(state)@.next,
                ).0);
            }
            Ok(())
        },
        Statement::Return { val } => {
            match generate_expression_code(val, state, table, alloc_size) {
                Err(e) => {
                    return Err(e);
                },
                Ok(_) => {},
            }
            state.push(LabeledOpCode::without_label(OpCode::Pop(Register::RAX)));
            state.push(LabeledOpCode::without_label(OpCode::MovEbpToEspAndPopRbp));
            state.push(LabeledOpCode::without_label(OpCode::Ret));
            proof {
                assert(state@.ops =~= old(state)@.ops + emit_stmt(
                    *stmt,
                    table_model(table@),
                    old(state)@.next,
                ).0);
            }
            Ok(())
        },
        Statement::SetWithLiteralIndex { index, val } => {
            if *index >= alloc_size {
                return Err(GenError::LocalIndexOutOfRange);
            }
            match generate_expression_code(val, state, table, alloc_size) {
                Err(e) => {
                    return Err(e);
                },
                Ok(_) => {},
            }
            state.push(LabeledOpCode::without_label(OpCode::Pop(Register::R1)));
            state.push(LabeledOpCode::without_label(OpCode::SetVar(*index, Register::R1)));
            proof {
                assert(state@.ops =~= old(state)@.ops + emit_stmt(
                    *stmt,
                    table_model(table@),
                    old(state)@.next,
                ).0);
            }
            Ok(())
        },
        Statement::SetWithComputedIndex { index, val } => {
            match generate_expression_code(index, state, table, alloc_size) {
                Err(e) => {
                    return Err(e);
                },
                Ok(_) => {},
            }
            match generate_expression_code(val, state, table, alloc_size) {
                Err(e) => {
                    return Err(e);
                },
                Ok(_) => {},
            }
            state.push(LabeledOpCode::without_label(OpCode::Pop(Register::R2)));
            state.push(LabeledOpCode::without_label(OpCode::Pop(Register::R1)));
            state.push(
                LabeledOpCode::without_label(OpCode::SetVarComputed(Register::R1, Register::R2)),
            );
            proof {
                assert(state@.ops =~= old(state)@.ops + emit_stmt(
                    *stmt,
                    table_model(table@),
                    old(state)@.next,
                ).0);
            }
            Ok(())
        },
        Statement::If { .. } | Statement::While { .. } => generate_branch_code(
            stmt,
            state,
            table,
            alloc_size,
        ),
        Statement::Block { stmts } => {
            let n_stmts = stmts.len();
            let mut i: usize = 0;
            proof {
                assert(stmts@.take(0) =~= Seq::<Statement>::empty());
            }
            while i < n_stmts
                invariant
                    *stmt == (Statement::Block { stmts: *stmts }),
                    n_stmts == stmts@.len(),
                    i <= n_stmts,
                    state@.ops == old(state)@.ops + emit_stmts(
                        stmts@.take(i as int),
                        table_model(table@),
                        old(state)@.next,
                    ).0,
                    state@.next == emit_stmts(
                        stmts@.take(i as int),
                        table_model(table@),
                        old(state)@.next,
                    ).1,
                    calls_defined_stmts(stmts@.take(i as int), table_model(table@)),
                    arities_ok_stmts(stmts@.take(i as int), table_model(table@)),
                    locals_ok_stmts(stmts@.take(i as int), alloc_size),
                decreases n_stmts - i,
            {
                proof {
                    let ghost sv = *stmt;
                    match sv {
                        Statement::Block { stmts: s2 } => {
                            assert(decreases_to!(sv => s2));
                            assert(decreases_to!(s2 => s2@));
                            assert(decreases_to!(s2@ => s2@[i as int]));
                            assert(decreases_to!(sv => s2@[i as int]));
                            assert(s2@[i as int] == stmts@[i as int]);
                        },
                        _ => {
                            assert(false);
                        },
                    }
                }
                match generate_statement_code(&stmts[i], state, table, alloc_size) {
                    Err(e) => {
                        proof {
                            lemma_stmts_element(
                                stmts@,
                                table_model(table@),
                                alloc_size,
                                i as int,
                            );
                            lemma_stmts_prefix_counter(
                                stmts@,
                                table_model(table@),
                                old(state)@.next,
                                i as int + 1,
                            );
                            assert(stmts@.take(i as int + 1).drop_last() =~= stmts@.take(
                                i as int,
                            ));
                            assert(stmts@.take(i as int + 1).last() == stmts@[i as int]);
                        }
                        return Err(e);
                    },
                    Ok(_) => {},
                }
                proof {
                    assert(stmts@.take(i as int + 1).drop_last() =~= stmts@.take(i as int));
                    assert(stmts@.take(i as int + 1).last() == stmts@[i as int]);
                }
                i = i + 1;
            }
            proof {
                assert(stmts@.take(n_stmts as int) =~= stmts@);
            }
            Ok(())
        },
    }
}

} // verus!

verus! {

// ------------------------------------------------------------------
// The peephole pass
// ------------------------------------------------------------------

/// One peephole window: if the instruction before position `i` pushes a
/// register and position `i` pops one and carries no label, the round trip
/// collapses: same register, both become `Nop`; different registers, a `Mov`
/// and a `Nop`. A labeled pop is a jump target and is left alone.
pub open spec fn window_rewrite(s: Seq<LabeledOpModel>, i: int) -> Seq<LabeledOpModel> {
    if s[i].labels.len() == 0 {
        match (s[i - 1].code, s[i].code) {
            (OpCode::Push(a), OpCode::Pop(b)) => {
                let first = if a == b {
                    OpCode::Nop
                } else {
                    OpCode::Mov(a, b)
                };
                s.update(i - 1, LabeledOpModel { labels: s[i - 1].labels, code: first }).update(
                    i,
                    LabeledOpModel { labels: s[i].labels, code: OpCode::Nop },
                )
            },
            _ => s,
        }
    } else {
        s
    }
}

/// The sliding pass from window position `i` on.
pub open spec fn ph_from(s: Seq<LabeledOpModel>, i: int) -> Seq<LabeledOpModel>
    decreases s.len() - i,
{
    if i < 1 || i >= s.len() {
        s
    } else {
        ph_from(window_rewrite(s, i), i + 1)
    }
}

/// The whole peephole pass over one function's instructions.
pub open spec fn peephole_spec(s: Seq<LabeledOpModel>) -> Seq<LabeledOpModel> {
    ph_from(s, 1)
}

/// Collapses adjacent push/pop round trips in place.
pub fn peephole(ops: &mut Vec<LabeledOpCode>)
    ensures
        ops_model(final(ops)@) == peephole_spec(ops_model(old(ops)@)),
{
    let n = ops.len();
    let mut i: usize = 1;
    while i < n
        invariant
            n == ops.len(),
            1 <= i,
            ph_from(ops_model(old(ops)@), 1) == ph_from(ops_model(ops@), i as int),
        decreases n - i,
    {
        let ghost prev = ops_model(ops@);
        if ops[i].labels.len() == 0 {
            let c1 = ops[i - 1].code;
            let c2 = ops[i].code;
            if let (OpCode::Push(a), OpCode::Pop(b)) = (c1, c2) {
                let labels1 = ops[i - 1].labels.clone();
                let first = if a == b {
                    OpCode::Nop
                } else {
                    OpCode::Mov(a, b)
                };
                ops.set(i - 1, LabeledOpCode { labels: labels1, code: first });
                ops.set(i, LabeledOpCode::without_label(OpCode::Nop));
            }
        }
        proof {
            assert(ops_model(ops@) =~~= window_rewrite(prev, i as int));
        }
        i = i + 1;
    }
}

} // verus!

verus! {

// ------------------------------------------------------------------
// Label migration and removable-instruction filtering
// ------------------------------------------------------------------

/// The rest of the migrated output from position `i`, carrying the labels
/// collected from the `Nop`s passed so far: a `Nop` gives its labels up and
/// stays bare, the next real instruction takes them, and whatever is still
/// pending at the end rides on one trailing `Nop`.
pub open spec fn migrate_from(s: Seq<LabeledOpModel>, i: int, pending: Seq<Label>) -> Seq<
    LabeledOpModel,
>
    decreases s.len() - i,
{
    if !(0 <= i < s.len()) {
        seq![LabeledOpModel { labels: pending, code: OpCode::Nop }]
    } else if s[i].code is Nop {
        seq![unlabeled(OpCode::Nop)] + migrate_from(s, i + 1, pending + s[i].labels)
    } else {
        seq![LabeledOpModel { labels: s[i].labels + pending, code: s[i].code }] + migrate_from(
            s,
            i + 1,
            Seq::<Label>::empty(),
        )
    }
}

/// The migration pass over one function's instructions.
pub open spec fn migrate_spec(s: Seq<LabeledOpModel>) -> Seq<LabeledOpModel> {
    migrate_from(s, 0, Seq::<Label>::empty())
}

/// Moves every `Nop`'s labels onto the next real instruction, appending a
/// trailing `Nop` for labels that reach the end.
pub fn migrate_labels(ops: &Vec<LabeledOpCode>) -> (r: Vec<LabeledOpCode>)
    ensures
        ops_model(r@) == migrate_spec(ops_model(ops@)),
{
    let mut out: Vec<LabeledOpCode> = Vec::new();
    let mut pending: Vec<Label> = Vec::new();
    let mut i: usize = 0;
    let n = ops.len();
    proof {
        assert(ops_model(out@) =~= Seq::<LabeledOpModel>::empty());
        assert(pending@ =~= Seq::<Label>::empty());
    }
    while i < n
        invariant
            n == ops.len(),
            i <= n,
            migrate_spec(ops_model(ops@)) == ops_model(out@) + migrate_from(
                ops_model(ops@),
                i as int,
                pending@,
            ),
        decreases n - i,
    {
        let is_nop = match ops[i].code {
            OpCode::Nop => true,
            _ => false,
        };
        if is_nop {
            let mut ls = ops[i].labels.clone();
            pending.append(&mut ls);
            out.push(LabeledOpCode::without_label(OpCode::Nop));
        } else {
            let mut labels = ops[i].labels.clone();
            labels.append(&mut pending);
            let code = ops[i].code;
            out.push(LabeledOpCode { labels, code });
        }
        proof {
            assert(migrate_spec(ops_model(ops@)) =~~= ops_model(out@) + migrate_from(
                ops_model(ops@),
                i as int + 1,
                pending@,
            ));
        }
        i = i + 1;
    }
    out.push(LabeledOpCode::with_labels(pending, OpCode::Nop));
    proof {
        assert(migrate_spec(ops_model(ops@)) =~~= ops_model(out@));
    }
    out
}

/// An instruction the cleanup removes: an unlabeled `Nop`, or an unlabeled
/// allocation or free of zero slots.
pub open spec fn removable(op: LabeledOpModel) -> bool {
    op.labels.len() == 0 && (op.code is Nop || op.code == OpCode::Alloc(0usize) || op.code
        == OpCode::Free(0usize))
}

/// The instructions that survive the cleanup, in order.
pub open spec fn keep_spec(s: Seq<LabeledOpModel>) -> Seq<LabeledOpModel>
    decreases s,
{
    if s.len() == 0 {
        Seq::<LabeledOpModel>::empty()
    } else if removable(s.last()) {
        keep_spec(s.drop_last())
    } else {
        keep_spec(s.drop_last()).push(s.last())
    }
}

/// Drops every unlabeled `Nop`, `Alloc(0)` and `Free(0)`.
pub fn drop_removable(ops: &Vec<LabeledOpCode>) -> (r: Vec<LabeledOpCode>)
    ensures
        ops_model(r@) == keep_spec(ops_model(ops@)),
{
    let mut out: Vec<LabeledOpCode> = Vec::new();
    let mut i: usize = 0;
    let n = ops.len();
    proof {
        assert(ops_model(out@) =~= Seq::<LabeledOpModel>::empty());
        assert(ops_model(ops@).take(0) =~= Seq::<LabeledOpModel>::empty());
    }
    while i < n
        invariant
            n == ops.len(),
            i <= n,
            ops_model(out@) == keep_spec(ops_model(ops@).take(i as int)),
        decreases n - i,
    {
        let keep = if ops[i].labels.len() > 0 {
            true
        } else {
            match ops[i].code {
                OpCode::Nop => false,
                OpCode::Alloc(sz) => sz != 0,
                OpCode::Free(sz) => sz != 0,
                _ => true,
            }
        };
        if keep {
            out.push(ops[i].clone());
        }
        proof {
            assert(ops_model(ops@).take(i as int + 1).drop_last() =~= ops_model(ops@).take(
                i as int,
            ));
            assert(ops_model(ops@).take(i as int + 1).last() == ops_model(ops@)[i as int]);
            if keep {
                assert(ops_model(out@) =~= keep_spec(ops_model(ops@).take(i as int + 1)));
            }
        }
        i = i + 1;
    }
    proof {
        assert(ops_model(ops@).take(n as int) =~= ops_model(ops@));
    }
    out
}

} // verus!

verus! {

/// Lowers a branching statement, allocating its two fresh labels. Same
/// contract as [`generate_statement_code`].
#[verifier::rlimit(100)]
fn generate_branch_code(
    stmt: &Statement,
    state: &mut State,
    table: &Vec<FuncMeta>,
    alloc_size: usize,
) -> (r: Result<(), GenError>)
    requires
        stmt is If || stmt is While,
    ensures
        r is Ok <==> stmt_ok(*stmt, table_model(table@), alloc_size) && emit_stmt(
            *stmt,
            table_model(table@),
            old(state)@.next,
        ).1 <= usize::MAX as int,
        r is Ok ==> final(state)@.ops == old(state)@.ops + emit_stmt(
            *stmt,
            table_model(table@),
            old(state)@.next,
        ).0 && final(state)@.next == emit_stmt(*stmt, table_model(table@), old(state)@.next).1,
        r == Err::<(), GenError>(GenError::UndefinedFunction) ==> !calls_defined_stmt(
            *stmt,
            table_model(table@),
        ),
        r == Err::<(), GenError>(GenError::ArityMismatch) ==> !arities_ok_stmt(
            *stmt,
            table_model(table@),
        ),
        r == Err::<(), GenError>(GenError::LocalIndexOutOfRange) ==> !locals_ok_stmt(
            *stmt,
            alloc_size,
        ),
        r == Err::<(), GenError>(GenError::TooManyLabels) ==> emit_stmt(
            *stmt,
            table_model(table@),
            old(state)@.next,
        ).1 > usize::MAX as int,
        r != Err::<(), GenError>(GenError::MissingMain),
    decreases *stmt, 0int,
{
    match stmt {
        Statement::If { cond, then_branch, unless_branch } => {
            let l_else = match state.new_label() {
                Some(l) => l,
                None => {
                    proof {
                        lemma_stmt_counter_monotone(
                            **then_branch,
                            table_model(table@),
                            old(state)@.next + 2,
                        );
                        lemma_stmt_counter_monotone(
                            **unless_branch,
                            table_model(table@),
                            emit_stmt(**then_branch, table_model(table@), old(state)@.next + 2).1,
                        );
                    }
                    return Err(GenError::TooManyLabels);
                },
            };
            let l_end = match state.new_label() {
                Some(l) => l,
                None => {
                    proof {
                        lemma_stmt_counter_monotone(
                            **then_branch,
                            table_model(table@),
                            old(state)@.next + 2,
                        );
                        lemma_stmt_counter_monotone(
                            **unless_branch,
                            table_model(table@),
                            emit_stmt(**then_branch, table_model(table@), old(state)@.next + 2).1,
                        );
                    }
                    return Err(GenError::TooManyLabels);
                },
            };
            match generate_expression_code(cond, state, table, alloc_size) {
                Err(e) => {
                    return Err(e);
                },
                Ok(_) => {},
            }
            state.push(LabeledOpCode::without_label(OpCode::Pop(Register::R1)));
            state.push(LabeledOpCode::without_label(OpCode::JmpIfZero(Register::R1, l_else)));
            match generate_statement_code(then_branch, state, table, alloc_size) {
                Err(e) => {
                    proof {
                        lemma_stmt_counter_monotone(
                            **unless_branch,
                            table_model(table@),
                            emit_stmt(**then_branch, table_model(table@), old(state)@.next + 2).1,
                        );
                    }
                    return Err(e);
                },
                Ok(_) => {},
            }
            state.push(LabeledOpCode::without_label(OpCode::Jmp(l_end)));
            state.push(LabeledOpCode::with_one_label(l_else, OpCode::Nop));
            match generate_statement_code(unless_branch, state, table, alloc_size) {
                Err(e) => {
                    return Err(e);
                },
                Ok(_) => {},
            }
            state.push(LabeledOpCode::with_one_label(l_end, OpCode::Nop));
            proof {
                assert(state@.ops =~= old(state)@.ops + emit_stmt(
                    *stmt,
                    table_model(table@),
                    old(state)@.next,
                ).0);
            }
            Ok(())
        },
        Statement::While { cond, body } => {
            let l_begin = match state.new_label() {
                Some(l) => l,
                None => {
                    proof {
                        lemma_stmt_counter_monotone(
                            **body,
                            table_model(table@),
                            old(state)@.next + 2,
                        );
                    }
                    return Err(GenError::TooManyLabels);
                },
            };
            let l_end = match state.new_label() {
                Some(l) => l,
                None => {
                    proof {
                        lemma_stmt_counter_monotone(
                            **body,
                            table_model(table@),
                            old(state)@.next + 2,
                        );
                    }
                    return Err(GenError::TooManyLabels);
                },
            };
            state.push(LabeledOpCode::with_one_label(l_begin, OpCode::Nop));
            match generate_expression_code(cond, state, table, alloc_size) {
                Err(e) => {
                    return Err(e);
                },
                Ok(_) => {},
            }
            state.push(LabeledOpCode::without_label(OpCode::Pop(Register::R1)));
            state.push(LabeledOpCode::without_label(OpCode::JmpIfZero(Register::R1, l_end)));
            match generate_statement_code(body, state, table, alloc_size) {
                Err(e) => {
                    return Err(e);
                },
                Ok(_) => {},
            }
            state.push(LabeledOpCode::without_label(OpCode::Jmp(l_begin)));
            state.push(LabeledOpCode::with_one_label(l_end, OpCode::Nop));
            proof {
                assert(state@.ops =~= old(state)@.ops + emit_stmt(
                    *stmt,
                    table_model(table@),
                    old(state)@.next,
                ).0);
            }
            Ok(())
        },
        _ => {
            proof {
                assert(false);
            }
            Ok(())
        },
    }
}

} // verus!

verus! {

// ------------------------------------------------------------------
// One function's code
// ------------------------------------------------------------------

/// A function before the cleanup passes: prologue, local allocation, the
/// body, and the terminator — `Exit` for `main`, the epilogue-and-return
/// pair for everything else.
pub open spec fn raw_func_ops(f: FunctionData, tbl: Seq<FuncSig>, c: int) -> (
    Seq<LabeledOpModel>,
    int,
) {
    let body = emit_stmt(f.body, tbl, c);
    (
        seq![
            unlabeled(OpCode::PushRbpAndMovEspToEbp),
            unlabeled(OpCode::Alloc(f.alloc_size)),
        ] + body.0 + (if f.name@ == "main"@ {
            seq![unlabeled(OpCode::Exit)]
        } else {
            seq![unlabeled(OpCode::MovEbpToEspAndPopRbp), unlabeled(OpCode::Ret)]
        }),
        body.1,
    )
}

/// A function's finished instructions: the raw code after the peephole, the
/// label migration and the cleanup.
pub open spec fn func_ops(f: FunctionData, tbl: Seq<FuncSig>, c: int) -> (
    Seq<LabeledOpModel>,
    int,
) {
    let r = raw_func_ops(f, tbl, c);
    (keep_spec(migrate_spec(peephole_spec(r.0))), r.1)
}

/// Lowers one whole function, running the three passes over it. `Ok` hands
/// back the finished instructions and the advanced label counter.
pub fn generate_function_code(
    f: &FunctionData,
    next_label_val: usize,
    table: &Vec<FuncMeta>,
) -> (r: Result<(Vec<LabeledOpCode>, usize), GenError>)
    ensures
        r is Ok <==> stmt_ok(f.body, table_model(table@), f.alloc_size) && raw_func_ops(
            *f,
            table_model(table@),
            next_label_val as int,
        ).1 <= usize::MAX as int,
        match r {
            Ok((ops, nx)) => ops_model(ops@) == func_ops(
                *f,
                table_model(table@),
                next_label_val as int,
            ).0 && nx as int == func_ops(*f, table_model(table@), next_label_val as int).1,
            Err(e) => {
                &&& e == GenError::UndefinedFunction ==> !calls_defined_stmt(
                    f.body,
                    table_model(table@),
                )
                &&& e == GenError::ArityMismatch ==> !arities_ok_stmt(f.body, table_model(table@))
                &&& e == GenError::LocalIndexOutOfRange ==> !locals_ok_stmt(f.body, f.alloc_size)
                &&& e == GenError::TooManyLabels ==> raw_func_ops(
                    *f,
                    table_model(table@),
                    next_label_val as int,
                ).1 > usize::MAX as int
                &&& e != GenError::MissingMain
            },
        },
{
    let mut state = State::new(next_label_val);
    state.push(LabeledOpCode::without_label(OpCode::PushRbpAndMovEspToEbp));
    state.push(LabeledOpCode::without_label(OpCode::Alloc(f.alloc_size)));
    match generate_statement_code(&f.body, &mut state, table, f.alloc_size) {
        Err(e) => {
            return Err(e);
        },
        Ok(_) => {},
    }
    let main_name: String = ("main").to_owned();
    if f.name == main_name {
        state.push(LabeledOpCode::without_label(OpCode::Exit));
    } else {
        state.push(LabeledOpCode::without_label(OpCode::MovEbpToEspAndPopRbp));
        state.push(LabeledOpCode::without_label(OpCode::Ret));
    }
    let (mut ops, nx) = state.into_inner();
    proof {
        assert(ops_model(ops@) =~= raw_func_ops(*f, table_model(table@), next_label_val as int).0);
    }
    peephole(&mut ops);
    let migrated = migrate_labels(&ops);
    let finished = drop_removable(&migrated);
    Ok((finished, nx))
}

// ------------------------------------------------------------------
// Layout and label resolution
// ------------------------------------------------------------------

/// All functions' finished instruction lists in order, threading the label
/// counter through them.
pub open spec fn funcs_ops(funcs: Seq<FunctionData>, tbl: Seq<FuncSig>, c: int) -> (
    Seq<Seq<LabeledOpModel>>,
    int,
)
    decreases funcs,
{
    if funcs.len() == 0 {
        (Seq::<Seq<LabeledOpModel>>::empty(), c)
    } else {
        let p = funcs_ops(funcs.drop_last(), tbl, c);
        let q = func_ops(funcs.last(), tbl, p.1);
        (p.0.push(q.0), q.1)
    }
}

/// The concatenated code image.
pub open spec fn flatten_ops(ss: Seq<Seq<LabeledOpModel>>) -> Seq<LabeledOpModel>
    decreases ss,
{
    if ss.len() == 0 {
        Seq::<LabeledOpModel>::empty()
    } else {
        flatten_ops(ss.drop_last()) + ss.last()
    }
}

/// Each function's starting index in the concatenated image.
pub open spec fn addrs_of(ss: Seq<Seq<LabeledOpModel>>) -> Seq<usize>
    decreases ss,
{
    if ss.len() == 0 {
        Seq::<usize>::empty()
    } else {
        addrs_of(ss.drop_last()).push(flatten_ops(ss.drop_last()).len() as usize)
    }
}

/// The index of the one instruction carrying label `l` — the last one, were
/// a label ever placed twice — or the unresolved marker.
pub open spec fn label_pos(ops: Seq<LabeledOpModel>, l: Label) -> int
    decreases ops,
{
    if ops.len() == 0 {
        usize::MAX as int
    } else if ops.last().labels.contains(l) {
        ops.len() - 1
    } else {
        label_pos(ops.drop_last(), l)
    }
}

/// The absolute address a symbolic label resolves to.
pub open spec fn resolve_target(flat: Seq<LabeledOpModel>, nlabels: int, l: Label) -> usize {
    if (l.0 as int) < nlabels {
        label_pos(flat, l) as usize
    } else {
        usize::MAX
    }
}

/// One opcode after resolution: symbolic jumps and calls become absolute,
/// everything else is untouched.
pub open spec fn resolve_op(
    c: OpCode,
    flat: Seq<LabeledOpModel>,
    nlabels: int,
    addrs: Seq<usize>,
) -> OpCode {
    match c {
        OpCode::Jmp(l) => OpCode::JmpAddr(resolve_target(flat, nlabels, l)),
        OpCode::JmpIfZero(r, l) => OpCode::JmpAddrIfZero(r, resolve_target(flat, nlabels, l)),
        OpCode::FnCall(fl) => OpCode::FunctionCall(
            if fl.0 < addrs.len() {
                addrs[fl.0 as int]
            } else {
                usize::MAX
            },
        ),
        _ => c,
    }
}

/// The finished image and its entry point: every function lowered and laid
/// out in order, labels resolved to absolute indices, and a trailing `Nop`
/// dropped if one is left.
pub open spec fn generate_model(funcs: Seq<FunctionData>) -> (int, Seq<OpCode>) {
    let tbl = spec_table(funcs);
    let fo = funcs_ops(funcs, tbl, 0);
    let flat = flatten_ops(fo.0);
    let addrs = addrs_of(fo.0);
    let resolved = Seq::new(flat.len(), |k: int| resolve_op(flat[k].code, flat, fo.1, addrs));
    let trimmed = if resolved.len() > 0 && resolved.last() is Nop {
        resolved.drop_last()
    } else {
        resolved
    };
    let entry = match lookup(tbl, "main"@) {
        Some(f) => if (f.index as int) < addrs.len() {
            addrs[f.index as int] as int
        } else {
            0
        },
        None => 0,
    };
    (entry, trimmed)
}

/// The three statement conditions, over every function of a program.
pub open spec fn calls_defined_prog(funcs: Seq<FunctionData>, tbl: Seq<FuncSig>) -> bool
    decreases funcs,
{
    funcs.len() == 0 || (calls_defined_prog(funcs.drop_last(), tbl) && calls_defined_stmt(
        funcs.last().body,
        tbl,
    ))
}

pub open spec fn arities_ok_prog(funcs: Seq<FunctionData>, tbl: Seq<FuncSig>) -> bool
    decreases funcs,
{
    funcs.len() == 0 || (arities_ok_prog(funcs.drop_last(), tbl) && arities_ok_stmt(
        funcs.last().body,
        tbl,
    ))
}

pub open spec fn locals_ok_prog(funcs: Seq<FunctionData>) -> bool
    decreases funcs,
{
    funcs.len() == 0 || (locals_ok_prog(funcs.drop_last()) && locals_ok_stmt(
        funcs.last().body,
        funcs.last().alloc_size,
    ))
}

/// Everything `generate` checks of a program, short of the entry point: all
/// calls defined with matching arity, all literal local indices in range.
pub open spec fn prog_ok(funcs: Seq<FunctionData>) -> bool {
    calls_defined_prog(funcs, spec_table(funcs)) && arities_ok_prog(funcs, spec_table(funcs))
        && locals_ok_prog(funcs)
}

proof fn lemma_funcs_element(funcs: Seq<FunctionData>, tbl: Seq<FuncSig>, i: int)
    requires
        0 <= i < funcs.len(),
    ensures
        calls_defined_prog(funcs, tbl) ==> calls_defined_stmt(funcs[i].body, tbl),
        arities_ok_prog(funcs, tbl) ==> arities_ok_stmt(funcs[i].body, tbl),
        locals_ok_prog(funcs) ==> locals_ok_stmt(funcs[i].body, funcs[i].alloc_size),
    decreases funcs.len(),
{
    if i < funcs.len() - 1 {
        lemma_funcs_element(funcs.drop_last(), tbl, i);
        assert(funcs.drop_last()[i] == funcs[i]);
    }
}

proof fn lemma_funcs_counter_monotone(funcs: Seq<FunctionData>, tbl: Seq<FuncSig>, c: int)
    ensures
        funcs_ops(funcs, tbl, c).1 >= c,
    decreases funcs,
{
    if funcs.len() > 0 {
        lemma_funcs_counter_monotone(funcs.drop_last(), tbl, c);
        lemma_stmt_counter_monotone(
            funcs.last().body,
            tbl,
            funcs_ops(funcs.drop_last(), tbl, c).1,
        );
    }
}

proof fn lemma_funcs_prefix_counter(funcs: Seq<FunctionData>, tbl: Seq<FuncSig>, c: int, k: int)
    requires
        0 <= k <= funcs.len(),
    ensures
        funcs_ops(funcs, tbl, c).1 >= funcs_ops(funcs.take(k), tbl, c).1,
    decreases funcs.len(),
{
    if k == funcs.len() {
        assert(funcs.take(k) =~= funcs);
    } else {
        assert(funcs.drop_last().take(k) =~= funcs.take(k));
        lemma_funcs_prefix_counter(funcs.drop_last(), tbl, c, k);
        lemma_stmt_counter_monotone(
            funcs.last().body,
            tbl,
            funcs_ops(funcs.drop_last(), tbl, c).1,
        );
    }
}


/// Layout bookkeeping: one finished list and one start address per function.
proof fn lemma_layout_lens(funcs: Seq<FunctionData>, tbl: Seq<FuncSig>, c: int)
    ensures
        funcs_ops(funcs, tbl, c).0.len() == funcs.len(),
        addrs_of(funcs_ops(funcs, tbl, c).0).len() == funcs.len(),
    decreases funcs,
{
    if funcs.len() > 0 {
        lemma_layout_lens(funcs.drop_last(), tbl, c);
        let p = funcs_ops(funcs.drop_last(), tbl, c);
        let q = func_ops(funcs.last(), tbl, p.1);
        assert(p.0.push(q.0).drop_last() =~= p.0);
    }
}

/// What a name resolves to is an entry of the table.
proof fn lemma_lookup_in_table(tbl: Seq<FuncSig>, name: Seq<char>)
    ensures
        match lookup(tbl, name) {
            Some(f) => exists|i: int| 0 <= i < tbl.len() && tbl[i] == f,
            None => true,
        },
    decreases tbl.len(),
{
    if tbl.len() > 0 {
        if tbl.last().name == name {
            assert(tbl[tbl.len() - 1] == tbl.last());
        } else {
            lemma_lookup_in_table(tbl.drop_last(), name);
            match lookup(tbl.drop_last(), name) {
                Some(f) => {
                    let i = choose|i: int|
                        0 <= i < tbl.drop_last().len() && tbl.drop_last()[i] == f;
                    assert(tbl[i] == f);
                },
                None => {},
            }
        }
    }
}

} // verus!

verus! {

/// Lowers a whole program to its finished code image. Succeeds exactly when
/// every call names a defined function with the declared number of
/// arguments, every literal local index is in range, the label counter fits
/// the machine word, and a `main` exists; the image and entry point are then
/// exactly [`generate_model`].
#[verifier::rlimit(100)]
pub fn generate(prog: Program) -> (r: Result<Codes, GenError>)
    ensures
        r is Ok <==> prog_ok(prog.funcs@) && funcs_ops(prog.funcs@, spec_table(prog.funcs@), 0).1
            <= usize::MAX as int && lookup(spec_table(prog.funcs@), "main"@) is Some,
        match r {
            Ok(c) => c.entry_point as int == generate_model(prog.funcs@).0 && c.opcodes@
                == generate_model(prog.funcs@).1,
            Err(e) => {
                &&& e == GenError::UndefinedFunction ==> !calls_defined_prog(
                    prog.funcs@,
                    spec_table(prog.funcs@),
                )
                &&& e == GenError::ArityMismatch ==> !arities_ok_prog(
                    prog.funcs@,
                    spec_table(prog.funcs@),
                )
                &&& e == GenError::LocalIndexOutOfRange ==> !locals_ok_prog(prog.funcs@)
                &&& e == GenError::TooManyLabels ==> funcs_ops(
                    prog.funcs@,
                    spec_table(prog.funcs@),
                    0,
                ).1 > usize::MAX as int
                &&& e == GenError::MissingMain ==> lookup(
                    spec_table(prog.funcs@),
                    "main"@,
                ) is None
            },
        },
{
    let ghost tbl_spec = spec_table(prog.funcs@);
    let n_funcs = prog.funcs.len();

    // The name table: one entry per function, in order.
    let mut table: Vec<FuncMeta> = Vec::new();
    let mut i: usize = 0;
    while i < n_funcs
        invariant
            i <= n_funcs,
            n_funcs == prog.funcs@.len(),
            table@.len() == i as int,
            forall|j: int| 0 <= j < i ==> #[trigger] table@[j]@ == spec_table(prog.funcs@)[j],
        decreases n_funcs - i,
    {
        let name = prog.funcs[i].name.clone();
        let params_size = prog.funcs[i].params_size;
        table.push(FuncMeta { name, params_size, index: i });
        i = i + 1;
    }
    proof {
        assert(table_model(table@) =~= tbl_spec);
    }

    // Lower every function, laying the finished code out in input order and
    // recording where each function starts.
    let mut flat: Vec<LabeledOpCode> = Vec::new();
    let mut addrs: Vec<usize> = Vec::new();
    let mut next_label_val: usize = 0;
    let mut i: usize = 0;
    proof {
        assert(prog.funcs@.take(0) =~= Seq::<FunctionData>::empty());
        assert(ops_model(flat@) =~= Seq::<LabeledOpModel>::empty());
        assert(addrs@ =~= Seq::<usize>::empty());
    }
    while i < n_funcs
        invariant
            i <= n_funcs,
            n_funcs == prog.funcs@.len(),
            table_model(table@) == tbl_spec,
            tbl_spec == spec_table(prog.funcs@),
            next_label_val as int == funcs_ops(prog.funcs@.take(i as int), tbl_spec, 0).1,
            ops_model(flat@) == flatten_ops(
                funcs_ops(prog.funcs@.take(i as int), tbl_spec, 0).0,
            ),
            addrs@ == addrs_of(funcs_ops(prog.funcs@.take(i as int), tbl_spec, 0).0),
            calls_defined_prog(prog.funcs@.take(i as int), tbl_spec),
            arities_ok_prog(prog.funcs@.take(i as int), tbl_spec),
            locals_ok_prog(prog.funcs@.take(i as int)),
        decreases n_funcs - i,
    {
        proof {
            assert(prog.funcs@.take(i as int + 1).drop_last() =~= prog.funcs@.take(i as int));
            assert(prog.funcs@.take(i as int + 1).last() == prog.funcs@[i as int]);
        }
        match generate_function_code(&prog.funcs[i], next_label_val, &table) {
            Err(e) => {
                proof {
                    lemma_funcs_element(prog.funcs@, tbl_spec, i as int);
                    lemma_funcs_prefix_counter(prog.funcs@, tbl_spec, 0, i as int + 1);
                    lemma_stmt_counter_monotone(
                        prog.funcs@[i as int].body,
                        tbl_spec,
                        next_label_val as int,
                    );
                }
                return Err(e);
            },
            Ok((mut fops, nx)) => {
                addrs.push(flat.len());
                let ghost flat_before = ops_model(flat@);
                let ghost fops_model = ops_model(fops@);
                flat.append(&mut fops);
                next_label_val = nx;
                proof {
                    assert(ops_model(flat@) =~= flat_before + fops_model);
                    let fo_prev = funcs_ops(prog.funcs@.take(i as int), tbl_spec, 0);
                    let fo_now = funcs_ops(prog.funcs@.take(i as int + 1), tbl_spec, 0);
                    assert(fo_now.0.drop_last() =~= fo_prev.0);
                    assert(flatten_ops(fo_now.0) =~= flatten_ops(fo_prev.0) + fo_now.0.last());
                    assert(addrs_of(fo_now.0) =~= addrs_of(fo_prev.0).push(
                        flatten_ops(fo_prev.0).len() as usize,
                    ));
                }
            },
        }
        i = i + 1;
    }
    proof {
        assert(prog.funcs@.take(n_funcs as int) =~= prog.funcs@);
    }

    // Resolve labels: scan the image once to find each label's instruction,
    // then rewrite the symbolic jumps and calls.
    let nlabels = next_label_val;
    let ghost flat_model = ops_model(flat@);
    let mut ltab: Vec<usize> = Vec::new();
    let mut v: usize = 0;
    while v < nlabels
        invariant
            v <= nlabels,
            ltab@.len() == v as int,
            forall|w: int| 0 <= w < v ==> ltab@[w] == usize::MAX,
        decreases nlabels - v,
    {
        ltab.push(usize::MAX);
        v = v + 1;
    }
    let n_flat = flat.len();
    let mut k: usize = 0;
    proof {
        assert(flat_model.take(0) =~= Seq::<LabeledOpModel>::empty());
    }
    while k < n_flat
        invariant
            k <= n_flat,
            n_flat == flat@.len(),
            flat_model == ops_model(flat@),
            ltab@.len() == nlabels as int,
            forall|w: int|
                0 <= w < nlabels ==> ltab@[w] as int == label_pos(
                    flat_model.take(k as int),
                    Label(w as usize),
                ),
        decreases n_flat - k,
    {
        let n_lbl = flat[k].labels.len();
        let mut j: usize = 0;
        while j < n_lbl
            invariant
                k < n_flat,
                n_flat == flat@.len(),
                flat_model == ops_model(flat@),
                j <= n_lbl,
                n_lbl == flat@[k as int].labels@.len(),
                ltab@.len() == nlabels as int,
                forall|w: int|
                    0 <= w < nlabels ==> ltab@[w] as int == (if flat_model[k as int].labels.take(
                        j as int,
                    ).contains(Label(w as usize)) {
                        k as int
                    } else {
                        label_pos(flat_model.take(k as int), Label(w as usize))
                    }),
            decreases n_lbl - j,
        {
            let l = flat[k].labels[j];
            if l.0 < nlabels {
                ltab.set(l.0, k);
            }
            proof {
                let lbls = flat_model[k as int].labels;
                assert(lbls.take(j as int + 1).drop_last() =~= lbls.take(j as int));
                assert(lbls.take(j as int + 1)[j as int] == lbls[j as int]);
                assert forall|w: int| 0 <= w < nlabels implies ltab@[w] as int == (
                if lbls.take(j as int + 1).contains(Label(w as usize)) {
                    k as int
                } else {
                    label_pos(flat_model.take(k as int), Label(w as usize))
                }) by {
                    let lw = Label(w as usize);
                    if lw == l {
                        assert(lbls.take(j as int + 1).contains(lw));
                    } else {
                        if lbls.take(j as int + 1).contains(lw) {
                            let wi = choose|wi: int|
                                0 <= wi < j + 1 && #[trigger] lbls.take(j as int + 1)[wi] == lw;
                            assert(lbls.take(j as int)[wi] == lw);
                            assert(lbls.take(j as int).contains(lw));
                        } else if lbls.take(j as int).contains(lw) {
                            let wi = choose|wi: int|
                                0 <= wi < j && #[trigger] lbls.take(j as int)[wi] == lw;
                            assert(lbls.take(j as int + 1)[wi] == lw);
                            assert(lbls.take(j as int + 1).contains(lw));
                        }
                    }
                }
            }
            j = j + 1;
        }
        proof {
            assert(flat_model[k as int].labels.take(n_lbl as int) =~= flat_model[
                k as int
            ].labels);
            assert(flat_model.take(k as int + 1).drop_last() =~= flat_model.take(k as int));
            assert(flat_model.take(k as int + 1).last() == flat_model[k as int]);
        }
        k = k + 1;
    }
    proof {
        assert(flat_model.take(n_flat as int) =~= flat_model);
    }

    let mut resolved: Vec<OpCode> = Vec::new();
    let mut k: usize = 0;
    while k < n_flat
        invariant
            k <= n_flat,
            n_flat == flat@.len(),
            flat_model == ops_model(flat@),
            ltab@.len() == nlabels as int,
            forall|w: int|
                0 <= w < nlabels ==> ltab@[w] as int == label_pos(flat_model, Label(w as usize)),
            resolved@.len() == k as int,
            forall|m: int|
                0 <= m < k ==> resolved@[m] == resolve_op(
                    flat_model[m].code,
                    flat_model,
                    nlabels as int,
                    addrs@,
                ),
        decreases n_flat - k,
    {
        let c = flat[k].code;
        let rc = match c {
            OpCode::Jmp(l) => OpCode::JmpAddr(
                if l.0 < nlabels {
                    ltab[l.0]
                } else {
                    usize::MAX
                },
            ),
            OpCode::JmpIfZero(reg, l) => OpCode::JmpAddrIfZero(
                reg,
                if l.0 < nlabels {
                    ltab[l.0]
                } else {
                    usize::MAX
                },
            ),
            OpCode::FnCall(fl) => OpCode::FunctionCall(
                if fl.0 < addrs.len() {
                    addrs[fl.0]
                } else {
                    usize::MAX
                },
            ),
            _ => c,
        };
        resolved.push(rc);
        k = k + 1;
    }

    // Drop a trailing label-anchor `Nop` if one is left.
    let drop_tail = match resolved.last() {
        Some(op) => match op {
            OpCode::Nop => true,
            _ => false,
        },
        None => false,
    };
    if drop_tail {
        resolved.pop();
    }

    // The entry point is where `main` begins.
    let main_name: String = ("main").to_owned();
    match find_func(&table, &main_name) {
        None => Err(GenError::MissingMain),
        Some((_, index)) => {
            proof {
                lemma_lookup_in_table(tbl_spec, "main"@);
                lemma_layout_lens(prog.funcs@, tbl_spec, 0);
                let f = lookup(tbl_spec, "main"@).unwrap();
                let w = choose|w: int| 0 <= w < tbl_spec.len() && tbl_spec[w] == f;
                assert(tbl_spec[w].index == w as usize);
                assert(index == w);
            }
            let entry_point = addrs[index];
            proof {
                let fo = funcs_ops(prog.funcs@, tbl_spec, 0);
                assert(resolved@ =~= {
                    let flat2 = flatten_ops(fo.0);
                    let trimmed = Seq::new(
                        flat2.len(),
                        |m: int| resolve_op(flat2[m].code, flat2, fo.1, addrs_of(fo.0)),
                    );
                    if trimmed.len() > 0 && trimmed.last() is Nop {
                        trimmed.drop_last()
                    } else {
                        trimmed
                    }
                });
            }
            Ok(Codes { entry_point, opcodes: resolved })
        },
    }
}

} // verus!
