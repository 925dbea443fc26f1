use fpig::ast::{BinaryOp, Expr, ExprKind, Located, ParseObj, Stmt, StmtKind, UnaryOp};
use fpig::chunk::Chunk;
use fpig::compiler::{CompileError, Compiler, Slot};
use fpig::op;
use fpig::value::{ArithOp, FloatAnswer, FloatWork, Num, OrderOp, Value};
use fpig::vm::{Halt, Vm};

fn lit(p: ParseObj) -> Box<Expr> {
    Box::new(Located::new(ExprKind::Literal { value: p }))
}

fn int_lit(i: i64) -> Box<Expr> {
    lit(ParseObj::Int(i))
}

fn var(name: &str) -> Box<Expr> {
    lit(ParseObj::Ident(name.to_owned()))
}

fn bin(left: Box<Expr>, op: BinaryOp, right: Box<Expr>) -> Box<Expr> {
    Box::new(Located::new(ExprKind::Binary { left, op, right }))
}

fn block(inner: Vec<Stmt>) -> Box<Expr> {
    Box::new(Located::new(ExprKind::Block { inner }))
}

fn if_else(test: Box<Expr>, body: Vec<Stmt>, orelse: Vec<Stmt>) -> Box<Expr> {
    Box::new(Located::new(ExprKind::If { test, body, orelse }))
}

fn expr_stmt(expr: Box<Expr>) -> Stmt {
    Located::new(StmtKind::ExprStmt { expr })
}

fn let_stmt(name: &str, value: Box<Expr>) -> Stmt {
    Located::new(StmtKind::VarDec { name: name.to_owned(), value })
}

fn num(n: Num) -> f64 {
    match n {
        Num::Int(i) => i as f64,
        Num::Float(f) => f64::from_bits(f),
    }
}

fn host(w: &FloatWork) -> FloatAnswer {
    match w {
        FloatWork::Arith(op, a, b) => {
            let (a, b) = (num(*a), num(*b));
            FloatAnswer::Number(
                match op {
                    ArithOp::Add => a + b,
                    ArithOp::Sub => a - b,
                    ArithOp::Mult => a * b,
                    ArithOp::Div => a / b,
                }
                .to_bits(),
            )
        }
        FloatWork::Order(op, a, b) => {
            let (a, b) = (num(*a), num(*b));
            FloatAnswer::Truth(match op {
                OrderOp::Gt => a > b,
                OrderOp::Lt => a < b,
            })
        }
        FloatWork::Text(_, f, _) => FloatAnswer::Text(f64::from_bits(*f).to_string()),
    }
}

/// Compiles and runs one program, doing the float work that it asks for.
fn run(compiler: &mut Compiler, vm: &mut Vm, program: &Stmt) -> Result<(), Halt> {
    let chunk = compiler.compile(program).expect("compiles");
    let mut r = vm.interpret(chunk);
    while let Err(Halt::Float(w)) = &r {
        let answer = host(w);
        r = vm.resume(answer);
    }
    r
}

fn eval(program: Stmt) -> Result<Value, Halt> {
    let mut compiler = Compiler::new();
    let mut vm = Vm::new();
    run(&mut compiler, &mut vm, &program)?;
    Ok(vm.peek().cloned().unwrap_or(Value::Nil))
}

fn code_of(chunk: &Chunk) -> Vec<u8> {
    let mut code = Vec::new();
    let mut i = 0;
    while let Some(b) = chunk.get_byte(i) {
        code.push(b);
        i += 1;
    }
    code
}

fn vm_with_chunk(codes: &[u8], constants: Vec<Value>) -> Vm {
    let mut chunk = Chunk::new();
    for v in constants {
        chunk.write_constant(v);
    }
    for code in codes {
        chunk.write_code(*code);
    }
    let mut vm = Vm::new();
    vm.set_chunk(chunk);
    vm
}

#[test]
fn test_return() {
    let constants = vec![];
    let codes = vec![op::RETURN];
    let mut vm = vm_with_chunk(&codes, constants);
    assert_eq!(vm.run(), Ok(()))
}

#[test]
fn global_declared_then_read() {
    let mut compiler = Compiler::new();
    let mut vm = Vm::new();
    run(&mut compiler, &mut vm, &let_stmt("a", int_lit(1))).unwrap();
    run(&mut compiler, &mut vm, &expr_stmt(var("a"))).unwrap();
    assert_eq!(vm.peek(), Some(&Value::Int(1)));
}

#[test]
fn block_with_local_collapses_to_its_value() {
    let mut compiler = Compiler::new();
    let mut vm = Vm::new();
    let before = vm.stack_len();
    let program = expr_stmt(block(vec![let_stmt("x", int_lit(2)), expr_stmt(var("x"))]));
    run(&mut compiler, &mut vm, &program).unwrap();
    assert_eq!(vm.peek(), Some(&Value::Int(2)));
    assert_eq!(vm.stack_len(), before + 1);
}

#[test]
fn block_code_collapses_its_locals() {
    let mut compiler = Compiler::new();
    let program = expr_stmt(block(vec![let_stmt("x", int_lit(2)), expr_stmt(var("x"))]));
    let chunk = compiler.compile(&program).unwrap();
    assert_eq!(
        code_of(&chunk),
        vec![op::CONSTANT, 0, op::GET_LOCAL, 0, op::COLLAPSE_LOCALS, 1, op::RETURN]
    );
}

#[test]
fn locals_under_temporaries_resolve_to_their_own_slot() {
    let program = expr_stmt(bin(
        int_lit(1),
        BinaryOp::Add,
        block(vec![let_stmt("x", int_lit(2)), expr_stmt(var("x"))]),
    ));
    assert_eq!(eval(program), Ok(Value::Int(3)));
}

#[test]
fn if_true_and_false() {
    let p = |t: bool| {
        expr_stmt(if_else(
            lit(ParseObj::Bool(t)),
            vec![expr_stmt(int_lit(1))],
            vec![expr_stmt(int_lit(2))],
        ))
    };
    assert_eq!(eval(p(true)), Ok(Value::Int(1)));
    assert_eq!(eval(p(false)), Ok(Value::Int(2)));
}

#[test]
fn if_without_else_gives_nil_when_false() {
    let mut vm = Vm::new();
    let mut compiler = Compiler::new();
    let p = expr_stmt(if_else(lit(ParseObj::Bool(false)), vec![expr_stmt(int_lit(1))], vec![]));
    run(&mut compiler, &mut vm, &p).unwrap();
    assert_eq!(vm.peek(), Some(&Value::Nil));
    assert_eq!(vm.stack_len(), 1);
}

#[test]
fn if_on_non_bool_faults() {
    let p = expr_stmt(if_else(int_lit(1), vec![expr_stmt(int_lit(1))], vec![]));
    assert_eq!(eval(p), Err(Halt::Fault));
}

fn nils(n: usize) -> Vec<Stmt> {
    (0..n).map(|_| expr_stmt(lit(ParseObj::Nil))).collect()
}

#[test]
fn oversized_then_block_is_rejected() {
    let mut compiler = Compiler::new();
    let p = expr_stmt(if_else(lit(ParseObj::Bool(true)), nils(33_000), vec![]));
    assert_eq!(compiler.compile(&p).err(), Some(CompileError::BranchTooLong));
}

#[test]
fn oversized_else_block_is_rejected() {
    let mut compiler = Compiler::new();
    let p = expr_stmt(if_else(lit(ParseObj::Bool(true)), vec![], nils(33_000)));
    assert_eq!(compiler.compile(&p).err(), Some(CompileError::BranchTooLong));
}

#[test]
fn large_branches_below_the_limit_compile_and_run() {
    let p = expr_stmt(if_else(lit(ParseObj::Bool(false)), nils(30_000), nils(30_000)));
    assert_eq!(eval(p), Ok(Value::Nil));
}

#[test]
fn constant_pool_beyond_255_uses_long_form() {
    let mut inner: Vec<Stmt> = (0..300).map(|i| expr_stmt(int_lit(i))).collect();
    inner.push(expr_stmt(int_lit(300)));
    let program = expr_stmt(block(inner));
    let mut compiler = Compiler::new();
    let chunk = compiler.compile(&program).unwrap();
    assert_eq!(chunk.get_constant(300), Some(&Value::Int(300)));
    let code = code_of(&chunk);
    let n = code.len();
    assert_eq!(&code[n - 4..], &[op::CONSTANT_LONG, 1, 44, op::RETURN]);
    assert_eq!(eval(program), Ok(Value::Int(300)));
}

#[test]
fn redeclared_global_gets_a_second_slot() {
    let mut compiler = Compiler::new();
    let first = compiler.compile(&let_stmt("a", int_lit(1))).unwrap();
    let second = compiler.compile(&let_stmt("a", int_lit(2))).unwrap();
    assert_eq!(code_of(&first), vec![op::CONSTANT, 0, op::DEFINE_GLOBAL, 0, op::RETURN]);
    assert_eq!(code_of(&second), vec![op::CONSTANT, 0, op::DEFINE_GLOBAL, 1, op::RETURN]);
    assert_eq!(compiler.resolve(&"a".to_owned()), Some(Slot::Global(1)));
    let mut vm = Vm::new();
    assert_eq!(vm.interpret(first), Ok(()));
    assert_eq!(vm.interpret(second), Ok(()));
    let read = compiler.compile(&expr_stmt(var("a"))).unwrap();
    assert_eq!(vm.interpret(read), Ok(()));
    assert_eq!(vm.peek(), Some(&Value::Int(2)));
}

#[test]
fn cross_variant_equality_and_ordering() {
    let one_eq = expr_stmt(bin(int_lit(1), BinaryOp::Eq, lit(ParseObj::Str("1".to_owned()))));
    assert_eq!(eval(one_eq), Ok(Value::Bool(false)));
    let one_gt = expr_stmt(bin(int_lit(1), BinaryOp::Gt, lit(ParseObj::Str("1".to_owned()))));
    assert_eq!(eval(one_gt), Err(Halt::Fault));
}

#[test]
fn not_equal_is_eq_then_not() {
    let p = expr_stmt(bin(int_lit(1), BinaryOp::NotEq, int_lit(2)));
    let mut compiler = Compiler::new();
    let chunk = compiler.compile(&p).unwrap();
    assert_eq!(
        code_of(&chunk),
        vec![op::CONSTANT, 0, op::CONSTANT, 1, op::EQ, op::NOT, op::RETURN]
    );
    assert_eq!(eval(p), Ok(Value::Bool(true)));
}

#[test]
fn float_arithmetic_through_the_host() {
    let p = expr_stmt(bin(int_lit(1), BinaryOp::Div, int_lit(4)));
    assert_eq!(eval(p), Ok(Value::Float(0.25f64.to_bits())));
    let q = expr_stmt(bin(
        lit(ParseObj::Str("x".to_owned())),
        BinaryOp::Add,
        lit(ParseObj::Float(2.5f64.to_bits())),
    ));
    assert_eq!(eval(q), Ok(Value::Str("x2.5".to_owned())));
}

#[test]
fn resume_without_pending_work_faults() {
    let mut vm = Vm::new();
    assert_eq!(vm.resume(FloatAnswer::Truth(true)), Err(Halt::Fault));
}

#[test]
fn wrong_kind_of_answer_faults() {
    let mut compiler = Compiler::new();
    let mut vm = Vm::new();
    let chunk = compiler.compile(&expr_stmt(bin(int_lit(1), BinaryOp::Div, int_lit(4)))).unwrap();
    let r = vm.interpret(chunk);
    assert!(matches!(r, Err(Halt::Float(_))));
    assert_eq!(vm.resume(FloatAnswer::Truth(true)), Err(Halt::Fault));
}

#[test]
fn unresolved_name_is_a_compile_fault() {
    let mut compiler = Compiler::new();
    assert_eq!(
        compiler.compile(&expr_stmt(var("nope"))).err(),
        Some(CompileError::NameNotFound)
    );
}

#[test]
fn unsupported_operators_are_compile_faults() {
    let mut compiler = Compiler::new();
    for op in [BinaryOp::GtE, BinaryOp::LtE, BinaryOp::And, BinaryOp::Or] {
        let p = expr_stmt(bin(int_lit(1), op, int_lit(2)));
        assert_eq!(compiler.compile(&p).err(), Some(CompileError::UnsupportedOperator));
    }
    let minus = expr_stmt(Box::new(Located::new(ExprKind::Unary {
        op: UnaryOp::Minus,
        operand: int_lit(1),
    })));
    assert_eq!(compiler.compile(&minus).err(), Some(CompileError::UnsupportedOperator));
}

#[test]
fn while_is_an_unsupported_statement() {
    let mut compiler = Compiler::new();
    let w = Located::new(StmtKind::While { test: lit(ParseObj::Bool(false)), body: vec![] });
    assert_eq!(compiler.compile(&w).err(), Some(CompileError::UnsupportedStatement));
}

#[test]
fn failed_compile_declares_no_global() {
    let mut compiler = Compiler::new();
    let bad = let_stmt("a", var("missing"));
    assert_eq!(compiler.compile(&bad).err(), Some(CompileError::NameNotFound));
    assert_eq!(compiler.resolve(&"a".to_owned()), None);
}

#[test]
fn too_many_locals_in_one_block() {
    let mut compiler = Compiler::new();
    let inner: Vec<Stmt> = (0..256).map(|i| let_stmt(&format!("v{}", i), int_lit(0))).collect();
    let p = expr_stmt(block(inner));
    assert_eq!(compiler.compile(&p).err(), Some(CompileError::TooManyLocals));
}

#[test]
fn too_many_constants_in_one_chunk() {
    let mut compiler = Compiler::new();
    let inner: Vec<Stmt> = (0..65_537).map(|i| expr_stmt(int_lit(i))).collect();
    let p = expr_stmt(block(inner));
    assert_eq!(compiler.compile(&p).err(), Some(CompileError::TooManyConstants));
}

#[test]
fn too_many_globals() {
    let mut compiler = Compiler::new();
    for i in 0..65_536 {
        assert!(compiler.compile(&let_stmt("g", int_lit(i))).is_ok());
    }
    assert_eq!(
        compiler.compile(&let_stmt("g", int_lit(0))).err(),
        Some(CompileError::TooManyGlobals)
    );
}

#[test]
fn long_global_slots_round_trip() {
    let mut compiler = Compiler::new();
    let mut vm = Vm::new();
    for i in 0..300 {
        run(&mut compiler, &mut vm, &let_stmt(&format!("g{}", i), int_lit(i))).unwrap();
    }
    let read = compiler.compile(&expr_stmt(var("g299"))).unwrap();
    assert_eq!(code_of(&read), vec![op::GET_GLOBAL_LONG, 1, 43, op::RETURN]);
    assert_eq!(vm.interpret(read), Ok(()));
    assert_eq!(vm.peek(), Some(&Value::Int(299)));
}

#[test]
fn stack_overflow_is_a_compile_fault() {
    fn nested(level: usize) -> Box<Expr> {
        let mut inner: Vec<Stmt> =
            (0..255).map(|i| let_stmt(&format!("v{}", i), int_lit(0))).collect();
        if level > 0 {
            inner.push(expr_stmt(nested(level - 1)));
        }
        block(inner)
    }
    let mut compiler = Compiler::new();
    let p = expr_stmt(nested(260));
    assert_eq!(compiler.compile(&p).err(), Some(CompileError::StackOverflow));
}

#[test]
fn runtime_faults() {
    // unknown opcode
    assert_eq!(vm_with_chunk(&[0xFF], vec![]).run(), Err(Halt::Fault));
    // truncated operand
    assert_eq!(vm_with_chunk(&[op::CONSTANT], vec![Value::Nil]).run(), Err(Halt::Fault));
    // constant index out of range
    assert_eq!(vm_with_chunk(&[op::CONSTANT, 1], vec![Value::Nil]).run(), Err(Halt::Fault));
    // stack underflow
    assert_eq!(vm_with_chunk(&[op::POP, op::RETURN], vec![]).run(), Err(Halt::Fault));
    assert_eq!(vm_with_chunk(&[op::NIL, op::ADD], vec![]).run(), Err(Halt::Fault));
    // undefined global
    assert_eq!(vm_with_chunk(&[op::GET_GLOBAL, 0], vec![]).run(), Err(Halt::Fault));
    // local out of range
    assert_eq!(vm_with_chunk(&[op::GET_LOCAL, 0], vec![]).run(), Err(Halt::Fault));
    // not on a non-bool
    assert_eq!(vm_with_chunk(&[op::NIL, op::NOT], vec![]).run(), Err(Halt::Fault));
    // jump beyond the end
    assert_eq!(vm_with_chunk(&[op::JUMP, 0, 9], vec![]).run(), Err(Halt::Fault));
    // running off the end
    assert_eq!(vm_with_chunk(&[op::NIL], vec![]).run(), Err(Halt::Fault));
}

#[test]
fn not_and_jumps_execute() {
    let mut vm = vm_with_chunk(&[op::FALSE, op::NOT, op::RETURN], vec![]);
    assert_eq!(vm.run(), Ok(()));
    assert_eq!(vm.peek(), Some(&Value::Bool(true)));
    let mut vm = vm_with_chunk(&[op::JUMP, 0, 1, op::NIL, op::TRUE, op::RETURN], vec![]);
    assert_eq!(vm.run(), Ok(()));
    assert_eq!(vm.stack_len(), 1);
    assert_eq!(vm.peek(), Some(&Value::Bool(true)));
}

#[test]
fn globals_survive_a_later_fault() {
    let mut compiler = Compiler::new();
    let mut vm = Vm::new();
    run(&mut compiler, &mut vm, &let_stmt("a", int_lit(5))).unwrap();
    let bad = compiler.compile(&expr_stmt(bin(var("a"), BinaryOp::Add, lit(ParseObj::Nil)))).unwrap();
    assert_eq!(vm.interpret(bad), Err(Halt::Fault));
    run(&mut compiler, &mut vm, &expr_stmt(var("a"))).unwrap();
    assert_eq!(vm.peek(), Some(&Value::Int(5)));
}

#[test]
fn a_fault_leaves_the_stack_as_it_was() {
    let mut vm = vm_with_chunk(&[op::NIL, op::GET_GLOBAL, 0, op::RETURN], vec![]);
    assert_eq!(vm.run(), Err(Halt::Fault));
    assert_eq!(vm.stack_len(), 1);
    let mut vm = vm_with_chunk(&[op::NIL, op::GET_LOCAL, 5, op::RETURN], vec![]);
    assert_eq!(vm.run(), Err(Halt::Fault));
    assert_eq!(vm.stack_len(), 1);
    let mut vm = vm_with_chunk(&[op::NIL, op::TRUE, op::ADD, op::RETURN], vec![]);
    assert_eq!(vm.run(), Err(Halt::Fault));
    assert_eq!(vm.stack_len(), 2);
    assert_eq!(vm.peek(), Some(&Value::Bool(true)));
}

#[test]
fn compiling_twice_gives_the_same_code() {
    let p = expr_stmt(bin(int_lit(1), BinaryOp::Add, block(vec![let_stmt("x", int_lit(2)), expr_stmt(var("x"))])));
    let a = Compiler::new().compile(&p).unwrap();
    let b = Compiler::new().compile(&p).unwrap();
    assert_eq!(code_of(&a), code_of(&b));
}
