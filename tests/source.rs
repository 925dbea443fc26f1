use fpig::compiler::Compiler;
use fpig::lexer::tokenize;
use fpig::parser::{ParseError, Parser};
use fpig::token::{Token, TokenKind};
use fpig::value::{ArithOp, FloatAnswer, FloatWork, Num, OrderOp, Value};
use fpig::vm::{Halt, Vm};

fn num(n: Num) -> f64 {
    match n {
        Num::Int(i) => i as f64,
        Num::Float(f) => f64::from_bits(f),
    }
}

fn host(w: &FloatWork) -> FloatAnswer {
    match w {
        FloatWork::Arith(op, a, b) => {
            let (a, b) = (num(*a), num(*b));
            FloatAnswer::Number(
                match op {
                    ArithOp::Add => a + b,
                    ArithOp::Sub => a - b,
                    ArithOp::Mult => a * b,
                    ArithOp::Div => a / b,
                }
                .to_bits(),
            )
        }
        FloatWork::Order(op, a, b) => {
            let (a, b) = (num(*a), num(*b));
            FloatAnswer::Truth(match op {
                OrderOp::Gt => a > b,
                OrderOp::Lt => a < b,
            })
        }
        FloatWork::Text(_, f, _) => FloatAnswer::Text(f64::from_bits(*f).to_string()),
    }
}

struct Session {
    compiler: Compiler,
    vm: Vm,
}

impl Session {
    fn new() -> Session {
        Session { compiler: Compiler::new(), vm: Vm::new() }
    }

    /// Runs one line of source; the value on top of the stack afterwards.
    fn line(&mut self, src: &str) -> Result<Option<Value>, Halt> {
        let tokens: Vec<Token> = tokenize(src)
            .into_iter()
            .map(|t| match t.kind {
                TokenKind::Decimal { lexeme } => Token::new(TokenKind::Float {
                    value: lexeme.parse::<f64>().unwrap().to_bits(),
                }),
                kind => Token::new(kind),
            })
            .collect();
        let program = Parser::new(tokens).parse().expect("parses");
        let chunk = self.compiler.compile(&program).expect("compiles");
        let mut r = self.vm.interpret(chunk);
        while let Err(Halt::Float(w)) = &r {
            let answer = host(w);
            r = self.vm.resume(answer);
        }
        r.map(|()| self.vm.peek().cloned())
    }
}

#[test]
fn let_then_read_a_global() {
    let mut s = Session::new();
    assert_eq!(s.line("let a = 1;"), Ok(None));
    assert_eq!(s.line("a"), Ok(Some(Value::Int(1))));
}

#[test]
fn block_with_a_local() {
    let mut s = Session::new();
    assert_eq!(s.line("{ let x = 2 x }"), Ok(Some(Value::Int(2))));
    assert_eq!(s.vm.stack_len(), 1);
}

#[test]
fn if_else_from_source() {
    let mut s = Session::new();
    assert_eq!(s.line("if true { 1 } else { 2 }"), Ok(Some(Value::Int(1))));
    assert_eq!(s.line("if false { 1 } else { 2 }"), Ok(Some(Value::Int(2))));
}

#[test]
fn arithmetic_precedence_and_floats() {
    let mut s = Session::new();
    assert_eq!(s.line("1 + 2 * 3"), Ok(Some(Value::Int(7))));
    assert_eq!(s.line("(1 + 2) * 3"), Ok(Some(Value::Int(9))));
    assert_eq!(s.line("1.5 * 2"), Ok(Some(Value::Float(3.0f64.to_bits()))));
    assert_eq!(s.line("\"ab\" * 2"), Ok(Some(Value::Str("abab".to_owned()))));
    assert_eq!(s.line("!(1 == 2)"), Ok(Some(Value::Bool(true))));
    assert_eq!(s.line("1 != 1"), Ok(Some(Value::Bool(false))));
    assert_eq!(s.line("2 > 1.5"), Ok(Some(Value::Bool(true))));
}

#[test]
fn cross_variant_comparisons_from_source() {
    let mut s = Session::new();
    assert_eq!(s.line("1 == \"1\""), Ok(Some(Value::Bool(false))));
    assert_eq!(s.line("1 > \"1\""), Err(Halt::Fault));
}

#[test]
fn parse_errors() {
    let parse = |src: &str| Parser::new(tokenize(src)).parse().err();
    assert_eq!(parse("let = 1"), Some(ParseError { at: 1 }));
    assert_eq!(parse("{ 1"), Some(ParseError { at: 2 }));
    assert_eq!(parse("(1"), Some(ParseError { at: 2 }));
    assert_eq!(parse("1 2"), Some(ParseError { at: 1 }));
    assert_eq!(parse(")"), Some(ParseError { at: 0 }));
    assert_eq!(parse("1.5"), Some(ParseError { at: 0 }));
    assert_eq!(parse(""), Some(ParseError { at: 0 }));
}
