use fpig::value::{ArithOp, Eval, FloatAnswer, FloatWork, Num, OrderOp, Value};

fn num(n: Num) -> f64 {
    match n {
        Num::Int(i) => i as f64,
        Num::Float(f) => f64::from_bits(f),
    }
}

/// Does the float work the way a host does.
fn host(w: &FloatWork) -> FloatAnswer {
    match w {
        FloatWork::Arith(op, a, b) => {
            let (a, b) = (num(*a), num(*b));
            let r = match op {
                ArithOp::Add => a + b,
                ArithOp::Sub => a - b,
                ArithOp::Mult => a * b,
                ArithOp::Div => a / b,
            };
            FloatAnswer::Number(r.to_bits())
        }
        FloatWork::Order(op, a, b) => {
            let (a, b) = (num(*a), num(*b));
            FloatAnswer::Truth(match op {
                OrderOp::Gt => a > b,
                OrderOp::Lt => a < b,
            })
        }
        FloatWork::Text(_, f, _) => FloatAnswer::Text(f64::from_bits(*f).to_string()),
    }
}

fn finish(e: Eval) -> Result<Value, ()> {
    match e {
        Eval::Fault => Err(()),
        Eval::Ready(v) => Ok(v),
        Eval::Defer(w) => {
            let answer = host(&w);
            w.complete(answer).ok_or(())
        }
    }
}

fn float(f: f64) -> Value {
    Value::Float(f.to_bits())
}

fn value_op_any(a: Value, b_and_result: Vec<(Value, Result<Value, ()>)>, op: ArithOp) {
    for (b, r) in b_and_result {
        let result = finish(a.clone().arith(op, b));
        assert_eq!(result, r)
    }
}

fn make_a_and_result(
    r_nil: Result<Value, ()>,
    r_int: Result<Value, ()>,
    r_float: Result<Value, ()>,
    r_str: Result<Value, ()>,
    r_bool: Result<Value, ()>,
) -> Vec<(Value, Result<Value, ()>)> {
    vec![
        (Value::Nil, r_nil),
        (Value::Int(42), r_int),
        (float(42.1), r_float),
        (Value::Str("test".to_owned()), r_str),
        (Value::Bool(true), r_bool),
    ]
}

fn all_faults() -> Vec<(Value, Result<Value, ()>)> {
    make_a_and_result(Err(()), Err(()), Err(()), Err(()), Err(()))
}

fn s(x: &str) -> Value {
    Value::Str(x.to_owned())
}

#[test]
fn nil_add_any() {
    value_op_any(Value::Nil, all_faults(), ArithOp::Add);
}

#[test]
fn nil_sub_any() {
    value_op_any(Value::Nil, all_faults(), ArithOp::Sub);
}

#[test]
fn nil_mul_any() {
    value_op_any(Value::Nil, all_faults(), ArithOp::Mult);
}

#[test]
fn nil_div_any() {
    value_op_any(Value::Nil, all_faults(), ArithOp::Div);
}

#[test]
fn int_add_any() {
    let b_and_result = make_a_and_result(
        Err(()),
        Ok(Value::Int(54)),
        Ok(float(54.1)),
        Ok(s("12test")),
        Err(()),
    );
    value_op_any(Value::Int(12), b_and_result, ArithOp::Add);
}

#[test]
fn int_sub_any() {
    let b_and_result =
        make_a_and_result(Err(()), Ok(Value::Int(-30)), Ok(float(-30.1)), Err(()), Err(()));
    value_op_any(Value::Int(12), b_and_result, ArithOp::Sub);
}

#[test]
fn int_mul_any() {
    let b_and_result = make_a_and_result(
        Err(()),
        Ok(Value::Int(504)),
        Ok(float(12 as f64 * 42.1)),
        Err(()),
        Err(()),
    );
    value_op_any(Value::Int(12), b_and_result, ArithOp::Mult);
}

#[test]
fn int_div_any() {
    let b_and_result = make_a_and_result(
        Err(()),
        Ok(float(12 as f64 / 42 as f64)),
        Ok(float(12 as f64 / 42.1)),
        Err(()),
        Err(()),
    );
    value_op_any(Value::Int(12), b_and_result, ArithOp::Div);
}

#[test]
fn float_add_any() {
    let b_and_result = make_a_and_result(
        Err(()),
        Ok(float(54.1)),
        Ok(float(54.2)),
        Ok(s("12.1test")),
        Err(()),
    );
    value_op_any(float(12.1), b_and_result, ArithOp::Add);
}

#[test]
fn float_sub_any() {
    let b_and_result =
        make_a_and_result(Err(()), Ok(float(-29.9)), Ok(float(-30.0)), Err(()), Err(()));
    value_op_any(float(12.1), b_and_result, ArithOp::Sub);
}

#[test]
fn float_mul_any() {
    let b_and_result = make_a_and_result(
        Err(()),
        Ok(float(12.1 * 42 as f64)),
        Ok(float(12.1 * 42.1)),
        Err(()),
        Err(()),
    );
    value_op_any(float(12.1), b_and_result, ArithOp::Mult);
}

#[test]
fn float_div_any() {
    let b_and_result = make_a_and_result(
        Err(()),
        Ok(float(12.1 / 42 as f64)),
        Ok(float(12.1 / 42.1)),
        Err(()),
        Err(()),
    );
    value_op_any(float(12.1), b_and_result, ArithOp::Div);
}

#[test]
fn str_add_any() {
    let b_and_result = make_a_and_result(
        Err(()),
        Ok(s("a test str42")),
        Ok(s("a test str42.1")),
        Ok(s("a test strtest")),
        Err(()),
    );
    value_op_any(s("a test str"), b_and_result, ArithOp::Add);
}

#[test]
fn str_sub_any() {
    value_op_any(s("a test str"), all_faults(), ArithOp::Sub);
}

#[test]
fn str_mul_any() {
    let b_and_result = make_a_and_result(
        Err(()),
        Ok(Value::Str("a test str".to_owned().repeat(42))),
        Err(()),
        Err(()),
        Err(()),
    );
    value_op_any(s("a test str"), b_and_result, ArithOp::Mult);
}

#[test]
fn str_div_any() {
    value_op_any(s("a test str"), all_faults(), ArithOp::Div);
}

#[test]
fn bool_add_any() {
    value_op_any(Value::Bool(true), all_faults(), ArithOp::Add);
}

#[test]
fn bool_sub_any() {
    value_op_any(Value::Bool(true), all_faults(), ArithOp::Sub);
}

#[test]
fn bool_mul_any() {
    value_op_any(Value::Bool(true), all_faults(), ArithOp::Mult);
}

#[test]
fn bool_div_any() {
    value_op_any(Value::Bool(true), all_faults(), ArithOp::Div);
}

#[test]
fn operator_methods_match_the_table() {
    assert_eq!(Value::Int(2).add(Value::Int(3)), Eval::Ready(Value::Int(5)));
    assert_eq!(Value::Int(2).sub(Value::Int(3)), Eval::Ready(Value::Int(-1)));
    assert_eq!(Value::Int(2).mul(Value::Int(3)), Eval::Ready(Value::Int(6)));
    assert_eq!(
        Value::Int(2).div(Value::Int(3)),
        Eval::Defer(FloatWork::Arith(ArithOp::Div, Num::Int(2), Num::Int(3)))
    );
}

#[test]
fn int_overflow_faults() {
    assert_eq!(Value::Int(i64::MAX).add(Value::Int(1)), Eval::Fault);
    assert_eq!(Value::Int(i64::MIN).sub(Value::Int(1)), Eval::Fault);
    assert_eq!(Value::Int(i64::MAX).mul(Value::Int(2)), Eval::Fault);
    assert_eq!(Value::Int(i64::MIN).add(Value::Int(0)), Eval::Ready(Value::Int(i64::MIN)));
}

#[test]
fn str_times_negative_faults_and_zero_is_empty() {
    assert_eq!(s("ab").mul(Value::Int(-1)), Eval::Fault);
    assert_eq!(s("ab").mul(Value::Int(0)), Eval::Ready(s("")));
    assert_eq!(s("ab").mul(Value::Int(3)), Eval::Ready(s("ababab")));
    assert_eq!(s("").mul(Value::Int(1_000_000_000_000)), Eval::Ready(s("")));
}

#[test]
fn decimal_text_of_extremes() {
    assert_eq!(fpig::value::decimal_text(0), "0");
    assert_eq!(fpig::value::decimal_text(-7), "-7");
    assert_eq!(fpig::value::decimal_text(i64::MIN), i64::MIN.to_string());
    assert_eq!(fpig::value::decimal_text(i64::MAX), i64::MAX.to_string());
    assert_eq!(fpig::value::repeat_text(&"xy".to_owned(), 2), "xyxy");
}

#[test]
fn float_text_concatenation_requests_the_host() {
    assert_eq!(
        float(1.5).add(s("x")),
        Eval::Defer(FloatWork::Text(String::new(), 1.5f64.to_bits(), "x".to_owned()))
    );
    assert_eq!(
        s("x").add(float(1.5)),
        Eval::Defer(FloatWork::Text("x".to_owned(), 1.5f64.to_bits(), String::new()))
    );
}

#[test]
fn equality_never_faults_across_variants() {
    assert!(!Value::Int(1).equals(&s("1")));
    assert!(!Value::Int(1).equals(&float(1.0)));
    assert!(!Value::Nil.equals(&Value::Bool(false)));
    assert!(Value::Nil.equals(&Value::Nil));
    assert!(s("a").equals(&s("a")));
}

#[test]
fn float_equality_follows_ieee() {
    assert!(float(0.0).equals(&float(-0.0)));
    assert!(!float(f64::NAN).equals(&float(f64::NAN)));
    assert!(float(1.25).equals(&float(1.25)));
    assert!(!float(1.25).equals(&float(1.5)));
    assert!(fpig::value::float_equal(0.0f64.to_bits(), (-0.0f64).to_bits()));
}

#[test]
fn ordering_table() {
    assert_eq!(Value::Int(2).order(OrderOp::Gt, &Value::Int(1)), Eval::Ready(Value::Bool(true)));
    assert_eq!(Value::Int(2).order(OrderOp::Lt, &Value::Int(1)), Eval::Ready(Value::Bool(false)));
    assert_eq!(Value::Int(1).order(OrderOp::Gt, &s("1")), Eval::Fault);
    assert_eq!(s("a").order(OrderOp::Lt, &s("b")), Eval::Fault);
    assert_eq!(Value::Bool(true).order(OrderOp::Gt, &Value::Bool(false)), Eval::Fault);
    assert_eq!(Value::Nil.order(OrderOp::Gt, &Value::Nil), Eval::Fault);
    let w = Value::Int(2).order(OrderOp::Gt, &float(1.5));
    assert_eq!(finish(w), Ok(Value::Bool(true)));
}

#[test]
fn completion_of_wrong_kind_is_none() {
    let w = FloatWork::Arith(ArithOp::Add, Num::Int(1), Num::Int(2));
    assert_eq!(w.clone().complete(FloatAnswer::Truth(true)), None);
    assert_eq!(w.complete(FloatAnswer::Number(3)), Some(Value::Float(3)));
    let t = FloatWork::Text("a".to_owned(), 0, "c".to_owned());
    assert_eq!(t.complete(FloatAnswer::Text("b".to_owned())), Some(s("abc")));
}
