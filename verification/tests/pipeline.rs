use abys::ast::{Expression, FunctionData, OperandType, Program, Statement};
use abys::codegen::{generate, GenError};
use abys::machine::{FloatRequest, Machine, StepEffect, Trap};
use abys::opcode::{Codes, OpCode};
use abys::value::Value;

/// Runs a finished code image to completion, feeding `input` bytes to the
/// machine and collecting everything it writes.
fn run(codes: &Codes, input: &[u8]) -> Vec<u8> {
    let mut m = Machine::new(codes.entry_point);
    let mut out = Vec::new();
    let mut in_pos = 0;
    let mut steps: u64 = 0;
    loop {
        steps += 1;
        assert!(steps < 1_000_000, "program ran away");
        match m.step(codes) {
            StepEffect::Advanced => {}
            StepEffect::Output(b) => out.push(b),
            StepEffect::PromptRead(prompt, dest) => {
                out.push(prompt);
                let b = input[in_pos];
                in_pos += 1;
                m.write_register(dest, Value::from_i64(b as i64));
            }
            StepEffect::FloatWork(req, dest) => {
                let f = |bits: i64| f64::from_bits(bits as u64);
                let cell = |x: f64| Value::from_i64(x.to_bits() as i64);
                let flag = |b: bool| Value::from_i64(if b { 1 } else { 0 });
                let v = match req {
                    FloatRequest::Add(a, b) => cell(f(a) + f(b)),
                    FloatRequest::Sub(a, b) => cell(f(a) - f(b)),
                    FloatRequest::Mul(a, b) => cell(f(a) * f(b)),
                    FloatRequest::Div(a, b) => cell(f(a) / f(b)),
                    FloatRequest::Rem(a, b) => cell(f(a) % f(b)),
                    FloatRequest::CmpLt(a, b) => flag(f(a) < f(b)),
                    FloatRequest::CmpLe(a, b) => flag(f(a) <= f(b)),
                    FloatRequest::CmpEq(a, b) => flag(f(a) == f(b)),
                    FloatRequest::CmpNe(a, b) => flag(f(a) != f(b)),
                    FloatRequest::Neg(a) => cell(-f(a)),
                    FloatRequest::OfInt(a) => cell(a as f64),
                    FloatRequest::ToInt(a) => Value::from_i64(f(a) as i64),
                };
                m.write_register(dest, v);
            }
            StepEffect::Exited => return out,
            StepEffect::Trapped(t) => panic!("machine trapped: {:?}", t),
        }
    }
}

fn lit(v: i64) -> Box<Expression> {
    Box::new(Expression::Int(v))
}

fn putc(e: Expression) -> Statement {
    Statement::PutByte { val: Box::new(e) }
}

fn main_func(stmts: Vec<Statement>, alloc_size: usize) -> FunctionData {
    FunctionData {
        body: Statement::Block { stmts },
        name: "main".to_owned(),
        params_size: 0,
        alloc_size,
    }
}

#[test]
fn prints_three_bytes() {
    let prog = Program {
        funcs: vec![main_func(
            vec![
                putc(Expression::Int(65)),
                putc(Expression::Int(66)),
                putc(Expression::Int(67)),
            ],
            0,
        )],
    };
    let codes = generate(prog).unwrap();
    assert_eq!(run(&codes, &[]), b"ABC".to_vec());
}

#[test]
fn while_loop_counts() {
    // set.0 = 0; while get.0 < 3: { putc (get.0 + 48); set.0 = get.0 + 1; }
    let get0 = || Box::new(Expression::GetWithLiteralIndex(0));
    let prog = Program {
        funcs: vec![main_func(
            vec![
                Statement::SetWithLiteralIndex { index: 0, val: lit(0) },
                Statement::While {
                    cond: Box::new(Expression::Lt(OperandType::Int, get0(), lit(3))),
                    body: Box::new(Statement::Block {
                        stmts: vec![
                            putc(Expression::Add(OperandType::Int, get0(), lit(48))),
                            Statement::SetWithLiteralIndex {
                                index: 0,
                                val: Box::new(Expression::Add(OperandType::Int, get0(), lit(1))),
                            },
                        ],
                    }),
                },
            ],
            1,
        )],
    };
    let codes = generate(prog).unwrap();
    assert_eq!(run(&codes, &[]), b"012".to_vec());
}

#[test]
fn call_adds_params() {
    // func add { params 2; alloc 0; return param.0 + param.1; }
    // func main { params 0; alloc 0; putc add(40, 2); }
    // The parser stores param.i as params_size - i.
    let add = FunctionData {
        body: Statement::Block {
            stmts: vec![Statement::Return {
                val: Box::new(Expression::Add(
                    OperandType::Int,
                    Box::new(Expression::GetParam(2)),
                    Box::new(Expression::GetParam(1)),
                )),
            }],
        },
        name: "add".to_owned(),
        params_size: 2,
        alloc_size: 0,
    };
    let main = main_func(
        vec![putc(Expression::Call(
            "add".to_owned(),
            vec![Expression::Int(40), Expression::Int(2)],
        ))],
        0,
    );
    let prog = Program { funcs: vec![add, main] };
    let codes = generate(prog).unwrap();
    assert_eq!(run(&codes, &[]), vec![42]);
}

#[test]
fn if_takes_the_right_branch() {
    let prog = Program {
        funcs: vec![main_func(
            vec![Statement::If {
                cond: Box::new(Expression::Eq(OperandType::Int, lit(1), lit(1))),
                then_branch: Box::new(putc(Expression::Int(89))),
                unless_branch: Box::new(putc(Expression::Int(78))),
            }],
            0,
        )],
    };
    let codes = generate(prog).unwrap();
    assert_eq!(run(&codes, &[]), b"Y".to_vec());
}

#[test]
fn getc_echoes_with_prompt() {
    // putc getc; — the read writes a prompt byte first: the destination
    // register's current value modulo 255, which is 0 here.
    let prog = Program {
        funcs: vec![main_func(vec![putc(Expression::ReadInputByte)], 0)],
    };
    let codes = generate(prog).unwrap();
    assert_eq!(run(&codes, b"Q"), vec![0, b'Q']);
}

#[test]
fn recursive_factorial() {
    // func fact { params 1; alloc 0;
    //   if param.0 <= 1: return 1 else return param.0 * fact(param.0 - 1); }
    // func main { params 0; alloc 0; putc fact(5); }
    let p0 = || Box::new(Expression::GetParam(1));
    let fact = FunctionData {
        body: Statement::Block {
            stmts: vec![Statement::If {
                cond: Box::new(Expression::Le(OperandType::Int, p0(), lit(1))),
                then_branch: Box::new(Statement::Return { val: lit(1) }),
                unless_branch: Box::new(Statement::Return {
                    val: Box::new(Expression::Mul(
                        OperandType::Int,
                        p0(),
                        Box::new(Expression::Call(
                            "fact".to_owned(),
                            vec![Expression::Sub(OperandType::Int, p0(), lit(1))],
                        )),
                    )),
                }),
            }],
        },
        name: "fact".to_owned(),
        params_size: 1,
        alloc_size: 0,
    };
    let main = main_func(
        vec![putc(Expression::Call("fact".to_owned(), vec![Expression::Int(5)]))],
        0,
    );
    let prog = Program { funcs: vec![fact, main] };
    let codes = generate(prog).unwrap();
    assert_eq!(run(&codes, &[]), vec![120]);
}

#[test]
fn image_has_no_pseudo_opcodes() {
    let prog = Program {
        funcs: vec![main_func(
            vec![Statement::If {
                cond: int_expr_eq(),
                then_branch: Box::new(putc(Expression::Int(89))),
                unless_branch: Box::new(Statement::While {
                    cond: lit(0),
                    body: Box::new(putc(Expression::Int(78))),
                }),
            }],
            0,
        )],
    };
    let codes = generate(prog).unwrap();
    for op in codes.opcodes.iter() {
        assert!(!matches!(
            op,
            OpCode::Nop | OpCode::Jmp(_) | OpCode::JmpIfZero(_, _) | OpCode::FnCall(_)
        ));
    }
}

fn int_expr_eq() -> Box<Expression> {
    Box::new(Expression::Eq(OperandType::Int, lit(1), lit(1)))
}

#[test]
fn byte_output_wraps_at_255() {
    let prog = Program {
        funcs: vec![main_func(
            vec![putc(Expression::Int(255)), putc(Expression::Int(256)), putc(Expression::Int(-1))],
            0,
        )],
    };
    let codes = generate(prog).unwrap();
    // The output byte is the value modulo 255, Euclidean: 255 -> 0, 256 -> 1,
    // -1 -> 254.
    assert_eq!(run(&codes, &[]), vec![0, 1, 254]);
}

#[test]
fn float_arithmetic_round_trips() {
    // putc f_to_i(i_to_f(30) * 2.2); floats ride through as bit patterns.
    let two_point_two = Expression::Float((2.2f64).to_bits() as i64);
    let prog = Program {
        funcs: vec![main_func(
            vec![putc(Expression::Ftoi(Box::new(Expression::Mul(
                OperandType::Float,
                Box::new(Expression::Itof(lit(30))),
                Box::new(two_point_two),
            ))))],
            0,
        )],
    };
    let codes = generate(prog).unwrap();
    assert_eq!(run(&codes, &[]), vec![66]);
}

#[test]
fn undefined_function_is_refused() {
    let prog = Program {
        funcs: vec![main_func(
            vec![putc(Expression::Call("absent".to_owned(), vec![]))],
            0,
        )],
    };
    assert_eq!(generate(prog).unwrap_err(), GenError::UndefinedFunction);
}

#[test]
fn arity_mismatch_is_refused() {
    let callee = FunctionData {
        body: Statement::Block { stmts: vec![] },
        name: "callee".to_owned(),
        params_size: 2,
        alloc_size: 0,
    };
    let main = main_func(
        vec![putc(Expression::Call("callee".to_owned(), vec![Expression::Int(1)]))],
        0,
    );
    let prog = Program { funcs: vec![callee, main] };
    assert_eq!(generate(prog).unwrap_err(), GenError::ArityMismatch);
}

#[test]
fn missing_main_is_refused() {
    let f = FunctionData {
        body: Statement::Block { stmts: vec![] },
        name: "not_main".to_owned(),
        params_size: 0,
        alloc_size: 0,
    };
    let prog = Program { funcs: vec![f] };
    assert_eq!(generate(prog).unwrap_err(), GenError::MissingMain);
}

#[test]
fn local_index_out_of_range_is_refused() {
    let prog = Program {
        funcs: vec![main_func(
            vec![Statement::SetWithLiteralIndex { index: 3, val: lit(0) }],
            2,
        )],
    };
    assert_eq!(generate(prog).unwrap_err(), GenError::LocalIndexOutOfRange);
}
