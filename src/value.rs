//! Runtime values and their operator table.
//!
//! A float is carried as its IEEE-754 binary64 bit pattern. Integer and text
//! work is done here; float arithmetic, float ordering and the decimal text of
//! a float are left to the host: an operator that needs one of them yields a
//! [`FloatWork`] request, and [`FloatWork::complete`] turns the host's answer
//! into the operator's value.
use vstd::prelude::*;

verus! {

/// A runtime value.
#[derive(Debug, Clone, PartialEq)]
pub enum Value {
    Nil,
    Bool(bool),
    Int(i64),
    /// An IEEE-754 binary64 number, by its bit pattern.
    Float(u64),
    Str(String),
}

/// The mathematical model of a [`Value`]: text is a sequence of characters.
pub enum ValueModel {
    Nil,
    Bool(bool),
    Int(i64),
    Float(u64),
    Str(Seq<char>),
}

impl View for Value {
    type V = ValueModel;

    open spec fn view(&self) -> ValueModel {
        match self {
            Value::Nil => ValueModel::Nil,
            Value::Bool(b) => ValueModel::Bool(*b),
            Value::Int(i) => ValueModel::Int(*i),
            Value::Float(f) => ValueModel::Float(*f),
            Value::Str(s) => ValueModel::Str(s@),
        }
    }
}

/// The four arithmetic operators.
#[derive(Debug, Clone, Copy, PartialEq, Eq, Structural)]
pub enum ArithOp {
    Add,
    Sub,
    Mult,
    Div,
}

/// The two ordering operators.
#[derive(Debug, Clone, Copy, PartialEq, Eq, Structural)]
pub enum OrderOp {
    Gt,
    Lt,
}

/// A numeric operand handed to the host; an integer is promoted to a float
/// by the host.
#[derive(Debug, Clone, Copy, PartialEq, Eq, Structural)]
pub enum Num {
    Int(i64),
    Float(u64),
}

/// Float work that an operator leaves to the host.
#[derive(Debug, Clone, PartialEq)]
pub enum FloatWork {
    /// `lhs op rhs` in binary64 arithmetic; answered by a float.
    Arith(ArithOp, Num, Num),
    /// `lhs op rhs` as a binary64 comparison; answered by a bool.
    Order(OrderOp, Num, Num),
    /// The decimal text of a float; the operator's value is the text
    /// `before ++ decimal ++ after`.
    Text(String, u64, String),
}

/// The model of a [`FloatWork`].
pub enum WorkModel {
    Arith(ArithOp, Num, Num),
    Order(OrderOp, Num, Num),
    Text(Seq<char>, u64, Seq<char>),
}

impl View for FloatWork {
    type V = WorkModel;

    open spec fn view(&self) -> WorkModel {
        match self {
            FloatWork::Arith(op, a, b) => WorkModel::Arith(*op, *a, *b),
            FloatWork::Order(op, a, b) => WorkModel::Order(*op, *a, *b),
            FloatWork::Text(before, f, after) => WorkModel::Text(before@, *f, after@),
        }
    }
}

/// The host's answer to a [`FloatWork`].
#[derive(Debug, Clone, PartialEq)]
pub enum FloatAnswer {
    /// A float, by its bit pattern.
    Number(u64),
    Truth(bool),
    Text(String),
}

/// The model of a [`FloatAnswer`].
pub enum AnswerModel {
    Number(u64),
    Truth(bool),
    Text(Seq<char>),
}

impl View for FloatAnswer {
    type V = AnswerModel;

    open spec fn view(&self) -> AnswerModel {
        match self {
            FloatAnswer::Number(f) => AnswerModel::Number(*f),
            FloatAnswer::Truth(b) => AnswerModel::Truth(*b),
            FloatAnswer::Text(s) => AnswerModel::Text(s@),
        }
    }
}

/// What an operator gives: a fault, a value, or float work for the host.
#[derive(Debug, Clone, PartialEq)]
pub enum Eval {
    Fault,
    Ready(Value),
    Defer(FloatWork),
}

/// The model of an [`Eval`].
pub enum EvalModel {
    Fault,
    Ready(ValueModel),
    Defer(WorkModel),
}

impl View for Eval {
    type V = EvalModel;

    open spec fn view(&self) -> EvalModel {
        match self {
            Eval::Fault => EvalModel::Fault,
            Eval::Ready(v) => EvalModel::Ready(v@),
            Eval::Defer(w) => EvalModel::Defer(w@),
        }
    }
}

// ---------------------------------------------------------------------------
// Decimal text of integers and repetition of text
// ---------------------------------------------------------------------------

pub open spec fn digit_char(d: nat) -> char {
    if d == 0 {
        '0'
    } else if d == 1 {
        '1'
    } else if d == 2 {
        '2'
    } else if d == 3 {
        '3'
    } else if d == 4 {
        '4'
    } else if d == 5 {
        '5'
    } else if d == 6 {
        '6'
    } else if d == 7 {
        '7'
    } else if d == 8 {
        '8'
    } else {
        '9'
    }
}

/// The decimal digits of `n`, most significant first, without leading zeros.
pub open spec fn digits(n: nat) -> Seq<char>
    decreases n,
{
    if n < 10 {
        seq![digit_char(n)]
    } else {
        digits(n / 10).push(digit_char(n % 10))
    }
}

/// The decimal text of an integer, with a leading `-` when it is negative.
pub open spec fn decimal(i: int) -> Seq<char> {
    if i < 0 {
        seq!['-'] + digits((-i) as nat)
    } else {
        digits(i as nat)
    }
}

/// `s` written `n` times in a row.
pub open spec fn repeat(s: Seq<char>, n: nat) -> Seq<char>
    decreases n,
{
    if n == 0 {
        Seq::empty()
    } else {
        repeat(s, (n - 1) as nat) + s
    }
}

fn digit(d: u64) -> (c: char)
    requires
        d < 10,
    ensures
        c == digit_char(d as nat),
{
    if d == 0 {
        '0'
    } else if d == 1 {
        '1'
    } else if d == 2 {
        '2'
    } else if d == 3 {
        '3'
    } else if d == 4 {
        '4'
    } else if d == 5 {
        '5'
    } else if d == 6 {
        '6'
    } else if d == 7 {
        '7'
    } else if d == 8 {
        '8'
    } else {
        '9'
    }
}

fn push_digits(n: u64, out: &mut Vec<char>)
    ensures
        final(out)@ == old(out)@ + digits(n as nat),
    decreases n,
{
    if n >= 10 {
        push_digits(n / 10, out);
    }
    out.push(digit(n % 10));
    proof {
        assert(old(out)@ + digits(n as nat) =~= final(out)@) by {
            if n >= 10 {
                assert(digits(n as nat) == digits((n / 10) as nat).push(digit_char((n % 10) as nat)));
            }
        }
    }
}

/// Relies on `String: FromIterator<char>`: the characters in order.
#[verifier::external_body]
pub(crate) fn string_from_chars(chars: &Vec<char>) -> (r: String)
    ensures
        r@ == chars@,
{
    chars.iter().collect()
}

/// The decimal text of `i`.
pub fn decimal_text(i: i64) -> (r: String)
    ensures
        r@ == decimal(i as int),
{
    let mut chars: Vec<char> = Vec::new();
    let magnitude: u64 = if i < 0 {
        chars.push('-');
        (-(i as i128)) as u64
    } else {
        i as u64
    };
    push_digits(magnitude, &mut chars);
    assert(chars@ =~= decimal(i as int));
    string_from_chars(&chars)
}

/// `s` written `n` times in a row.
pub fn repeat_text(s: &String, n: u64) -> (r: String)
    ensures
        r@ == repeat(s@, n as nat),
{
    let mut r = String::new();
    if s.as_str().is_empty() {
        assert forall|k: nat| repeat(s@, k) =~= Seq::<char>::empty() by {
            lemma_repeat_empty(s@, k);
        }
        return r;
    }
    let mut i: u64 = 0;
    while i < n
        invariant
            i <= n,
            r@ == repeat(s@, i as nat),
        decreases n - i,
    {
        r.append(s.as_str());
        i = i + 1;
    }
    r
}

proof fn lemma_repeat_empty(s: Seq<char>, k: nat)
    requires
        s.len() == 0,
    ensures
        repeat(s, k) =~= Seq::<char>::empty(),
    decreases k,
{
    if k > 0 {
        lemma_repeat_empty(s, (k - 1) as nat);
    }
}

fn concat_text(a: &String, b: &String) -> (r: String)
    ensures
        r@ == a@ + b@,
{
    let r = a.clone();
    r.concat(b.as_str())
}

// ---------------------------------------------------------------------------
// The operator table
// ---------------------------------------------------------------------------

pub open spec fn in_i64(x: int) -> bool {
    i64::MIN <= x <= i64::MAX
}

/// An integer result, or a fault where it leaves the 64-bit range.
pub open spec fn checked_int(x: int) -> EvalModel {
    if in_i64(x) {
        EvalModel::Ready(ValueModel::Int(x as i64))
    } else {
        EvalModel::Fault
    }
}

/// `Int op Int`: `+ - *` stay integers (a fault on overflow); `/` is true
/// division and gives a float.
pub open spec fn int_arith(op: ArithOp, a: i64, b: i64) -> EvalModel {
    match op {
        ArithOp::Add => checked_int(a + b),
        ArithOp::Sub => checked_int(a - b),
        ArithOp::Mult => checked_int(a * b),
        ArithOp::Div => EvalModel::Defer(WorkModel::Arith(ArithOp::Div, Num::Int(a), Num::Int(b))),
    }
}

/// The arithmetic table, dispatched on the left operand's variant.
pub open spec fn arith(op: ArithOp, a: ValueModel, b: ValueModel) -> EvalModel {
    match (a, b) {
        (ValueModel::Int(x), ValueModel::Int(y)) => int_arith(op, x, y),
        (ValueModel::Int(x), ValueModel::Float(y)) => EvalModel::Defer(
            WorkModel::Arith(op, Num::Int(x), Num::Float(y)),
        ),
        (ValueModel::Int(x), ValueModel::Str(s)) => if op == ArithOp::Add {
            EvalModel::Ready(ValueModel::Str(decimal(x as int) + s))
        } else {
            EvalModel::Fault
        },
        (ValueModel::Float(x), ValueModel::Int(y)) => EvalModel::Defer(
            WorkModel::Arith(op, Num::Float(x), Num::Int(y)),
        ),
        (ValueModel::Float(x), ValueModel::Float(y)) => EvalModel::Defer(
            WorkModel::Arith(op, Num::Float(x), Num::Float(y)),
        ),
        (ValueModel::Float(x), ValueModel::Str(s)) => if op == ArithOp::Add {
            EvalModel::Defer(WorkModel::Text(Seq::empty(), x, s))
        } else {
            EvalModel::Fault
        },
        (ValueModel::Str(s), ValueModel::Int(y)) => if op == ArithOp::Add {
            EvalModel::Ready(ValueModel::Str(s + decimal(y as int)))
        } else if op == ArithOp::Mult && y >= 0 {
            EvalModel::Ready(ValueModel::Str(repeat(s, y as nat)))
        } else {
            EvalModel::Fault
        },
        (ValueModel::Str(s), ValueModel::Float(y)) => if op == ArithOp::Add {
            EvalModel::Defer(WorkModel::Text(s, y, Seq::empty()))
        } else {
            EvalModel::Fault
        },
        (ValueModel::Str(s), ValueModel::Str(t)) => if op == ArithOp::Add {
            EvalModel::Ready(ValueModel::Str(s + t))
        } else {
            EvalModel::Fault
        },
        _ => EvalModel::Fault,
    }
}

/// The ordering table: integers compare here, a comparison that involves a
/// float goes to the host (an integer is promoted), anything else faults.
pub open spec fn order(op: OrderOp, a: ValueModel, b: ValueModel) -> EvalModel {
    match (a, b) {
        (ValueModel::Int(x), ValueModel::Int(y)) => EvalModel::Ready(
            ValueModel::Bool(if op == OrderOp::Gt { x > y } else { x < y }),
        ),
        (ValueModel::Int(x), ValueModel::Float(y)) => EvalModel::Defer(
            WorkModel::Order(op, Num::Int(x), Num::Float(y)),
        ),
        (ValueModel::Float(x), ValueModel::Int(y)) => EvalModel::Defer(
            WorkModel::Order(op, Num::Float(x), Num::Int(y)),
        ),
        (ValueModel::Float(x), ValueModel::Float(y)) => EvalModel::Defer(
            WorkModel::Order(op, Num::Float(x), Num::Float(y)),
        ),
        _ => EvalModel::Fault,
    }
}

/// Whether the bit pattern is a NaN: all exponent bits set, fraction nonzero.
pub open spec fn float_is_nan(f: u64) -> bool {
    (f >> 52u64) & 0x7ffu64 == 0x7ffu64 && f & 0xf_ffff_ffff_ffffu64 != 0
}

/// Whether the bit pattern is a zero of either sign.
pub open spec fn float_is_zero(f: u64) -> bool {
    f & 0x7fff_ffff_ffff_ffffu64 == 0
}

/// IEEE-754 equality: a NaN equals nothing, the two zeros are equal, any
/// other number equals only itself.
pub open spec fn float_eq(a: u64, b: u64) -> bool {
    !float_is_nan(a) && !float_is_nan(b) && (a == b || (float_is_zero(a) && float_is_zero(b)))
}

/// Equality: values of one variant compare by content (floats as IEEE-754
/// numbers), values of different variants are unequal.
pub open spec fn equal(a: ValueModel, b: ValueModel) -> bool {
    match (a, b) {
        (ValueModel::Nil, ValueModel::Nil) => true,
        (ValueModel::Bool(x), ValueModel::Bool(y)) => x == y,
        (ValueModel::Int(x), ValueModel::Int(y)) => x == y,
        (ValueModel::Float(x), ValueModel::Float(y)) => float_eq(x, y),
        (ValueModel::Str(s), ValueModel::Str(t)) => s == t,
        _ => false,
    }
}

/// What the host's answer makes of the float work, or `None` where the answer
/// is of the wrong kind.
pub open spec fn completion(w: WorkModel, a: AnswerModel) -> Option<ValueModel> {
    match (w, a) {
        (WorkModel::Arith(_, _, _), AnswerModel::Number(f)) => Some(ValueModel::Float(f)),
        (WorkModel::Order(_, _, _), AnswerModel::Truth(b)) => Some(ValueModel::Bool(b)),
        (WorkModel::Text(before, _, after), AnswerModel::Text(t)) => Some(
            ValueModel::Str(before + t + after),
        ),
        _ => None,
    }
}

/// The variant of a value, as a number: two values have the same variant
/// exactly when these agree.
pub open spec fn variant(v: ValueModel) -> int {
    match v {
        ValueModel::Nil => 0,
        ValueModel::Bool(_) => 1,
        ValueModel::Int(_) => 2,
        ValueModel::Float(_) => 3,
        ValueModel::Str(_) => 4,
    }
}

pub open spec fn is_number(v: ValueModel) -> bool {
    v is Int || v is Float
}

/// Values of different variants are never equal, and comparing them for
/// equality never faults: `1 == "1"` is `false`.
pub proof fn lemma_cross_variant_unequal(a: ValueModel, b: ValueModel)
    requires
        variant(a) != variant(b),
    ensures
        !equal(a, b),
{
}

/// Ordering faults unless both operands are numbers: `1 > "1"` faults.
pub proof fn lemma_order_needs_numbers(op: OrderOp, a: ValueModel, b: ValueModel)
    requires
        !(is_number(a) && is_number(b)),
    ensures
        order(op, a, b) is Fault,
{
}

/// Arithmetic on a `nil` or a boolean left operand always faults.
pub proof fn lemma_arith_nil_bool_left_faults(op: ArithOp, a: ValueModel, b: ValueModel)
    requires
        a is Nil || a is Bool,
    ensures
        arith(op, a, b) is Fault,
{
}

/// Division never stays in the integers: `Int / Int` is float work.
pub proof fn lemma_int_division_is_true_division(x: i64, y: i64)
    ensures
        arith(ArithOp::Div, ValueModel::Int(x), ValueModel::Int(y)) == EvalModel::Defer(
            WorkModel::Arith(ArithOp::Div, Num::Int(x), Num::Int(y)),
        ),
{
}

fn int_arith_exec(op: ArithOp, a: i64, b: i64) -> (r: Eval)
    ensures
        r@ == int_arith(op, a, b),
{
    let checked = match op {
        ArithOp::Add => a.checked_add(b),
        ArithOp::Sub => a.checked_sub(b),
        ArithOp::Mult => a.checked_mul(b),
        ArithOp::Div => {
            return Eval::Defer(FloatWork::Arith(ArithOp::Div, Num::Int(a), Num::Int(b)));
        },
    };
    match checked {
        Some(x) => Eval::Ready(Value::Int(x)),
        None => Eval::Fault,
    }
}

impl Value {
    /// A copy of the value.
    pub fn duplicate(&self) -> (r: Value)
        ensures
            r@ == self@,
    {
        match self {
            Value::Nil => Value::Nil,
            Value::Bool(b) => Value::Bool(*b),
            Value::Int(i) => Value::Int(*i),
            Value::Float(f) => Value::Float(*f),
            Value::Str(s) => Value::Str(s.clone()),
        }
    }

    /// `self op rhs` by the arithmetic table.
    pub fn arith(self, op: ArithOp, rhs: Value) -> (r: Eval)
        ensures
            r@ == arith(op, self@, rhs@),
    {
        match (self, rhs) {
            (Value::Int(x), Value::Int(y)) => int_arith_exec(op, x, y),
            (Value::Int(x), Value::Float(y)) => Eval::Defer(
                FloatWork::Arith(op, Num::Int(x), Num::Float(y)),
            ),
            (Value::Int(x), Value::Str(s)) => {
                if op == ArithOp::Add {
                    Eval::Ready(Value::Str(concat_text(&decimal_text(x), &s)))
                } else {
                    Eval::Fault
                }
            },
            (Value::Float(x), Value::Int(y)) => Eval::Defer(
                FloatWork::Arith(op, Num::Float(x), Num::Int(y)),
            ),
            (Value::Float(x), Value::Float(y)) => Eval::Defer(
                FloatWork::Arith(op, Num::Float(x), Num::Float(y)),
            ),
            (Value::Float(x), Value::Str(s)) => {
                if op == ArithOp::Add {
                    Eval::Defer(FloatWork::Text(String::new(), x, s))
                } else {
                    Eval::Fault
                }
            },
            (Value::Str(s), Value::Int(y)) => {
                if op == ArithOp::Add {
                    Eval::Ready(Value::Str(concat_text(&s, &decimal_text(y))))
                } else if op == ArithOp::Mult && y >= 0 {
                    Eval::Ready(Value::Str(repeat_text(&s, y as u64)))
                } else {
                    Eval::Fault
                }
            },
            (Value::Str(s), Value::Float(y)) => {
                if op == ArithOp::Add {
                    Eval::Defer(FloatWork::Text(s, y, String::new()))
                } else {
                    Eval::Fault
                }
            },
            (Value::Str(s), Value::Str(t)) => {
                if op == ArithOp::Add {
                    Eval::Ready(Value::Str(concat_text(&s, &t)))
                } else {
                    Eval::Fault
                }
            },
            _ => Eval::Fault,
        }
    }

    /// `self + rhs`.
    pub fn add(self, rhs: Value) -> (r: Eval)
        ensures
            r@ == arith(ArithOp::Add, self@, rhs@),
    {
        self.arith(ArithOp::Add, rhs)
    }

    /// `self - rhs`.
    pub fn sub(self, rhs: Value) -> (r: Eval)
        ensures
            r@ == arith(ArithOp::Sub, self@, rhs@),
    {
        self.arith(ArithOp::Sub, rhs)
    }

    /// `self * rhs`.
    pub fn mul(self, rhs: Value) -> (r: Eval)
        ensures
            r@ == arith(ArithOp::Mult, self@, rhs@),
    {
        self.arith(ArithOp::Mult, rhs)
    }

    /// `self / rhs`: always true division.
    pub fn div(self, rhs: Value) -> (r: Eval)
        ensures
            r@ == arith(ArithOp::Div, self@, rhs@),
    {
        self.arith(ArithOp::Div, rhs)
    }

    /// `self op rhs` by the ordering table.
    pub fn order(&self, op: OrderOp, rhs: &Value) -> (r: Eval)
        ensures
            r@ == order(op, self@, rhs@),
    {
        match (self, rhs) {
            (Value::Int(x), Value::Int(y)) => Eval::Ready(
                Value::Bool(
                    if op == OrderOp::Gt {
                        *x > *y
                    } else {
                        *x < *y
                    },
                ),
            ),
            (Value::Int(x), Value::Float(y)) => Eval::Defer(
                FloatWork::Order(op, Num::Int(*x), Num::Float(*y)),
            ),
            (Value::Float(x), Value::Int(y)) => Eval::Defer(
                FloatWork::Order(op, Num::Float(*x), Num::Int(*y)),
            ),
            (Value::Float(x), Value::Float(y)) => Eval::Defer(
                FloatWork::Order(op, Num::Float(*x), Num::Float(*y)),
            ),
            _ => Eval::Fault,
        }
    }

    /// Equality, which never faults.
    pub fn equals(&self, rhs: &Value) -> (r: bool)
        ensures
            r == equal(self@, rhs@),
    {
        match (self, rhs) {
            (Value::Nil, Value::Nil) => true,
            (Value::Bool(x), Value::Bool(y)) => *x == *y,
            (Value::Int(x), Value::Int(y)) => *x == *y,
            (Value::Float(x), Value::Float(y)) => float_equal(*x, *y),
            (Value::Str(s), Value::Str(t)) => *s == *t,
            _ => false,
        }
    }
}

/// IEEE-754 equality on bit patterns.
pub fn float_equal(a: u64, b: u64) -> (r: bool)
    ensures
        r == float_eq(a, b),
{
    let a_nan = (a >> 52u64) & 0x7ffu64 == 0x7ffu64 && a & 0xf_ffff_ffff_ffffu64 != 0;
    let b_nan = (b >> 52u64) & 0x7ffu64 == 0x7ffu64 && b & 0xf_ffff_ffff_ffffu64 != 0;
    let both_zero = a & 0x7fff_ffff_ffff_ffffu64 == 0 && b & 0x7fff_ffff_ffff_ffffu64 == 0;
    !a_nan && !b_nan && (a == b || both_zero)
}

impl FloatWork {
    /// A copy of the request.
    pub fn duplicate(&self) -> (r: FloatWork)
        ensures
            r@ == self@,
    {
        match self {
            FloatWork::Arith(o, a, b) => FloatWork::Arith(*o, *a, *b),
            FloatWork::Order(o, a, b) => FloatWork::Order(*o, *a, *b),
            FloatWork::Text(before, f, after) => FloatWork::Text(before.clone(), *f, after.clone()),
        }
    }

    /// The operator's value from the host's answer, or `None` where the
    /// answer is of the wrong kind.
    pub fn complete(self, answer: FloatAnswer) -> (r: Option<Value>)
        ensures
            r matches Some(v) ==> completion(self@, answer@) == Some(v@),
            r is None ==> completion(self@, answer@) is None,
    {
        match (self, answer) {
            (FloatWork::Arith(_, _, _), FloatAnswer::Number(f)) => Some(Value::Float(f)),
            (FloatWork::Order(_, _, _), FloatAnswer::Truth(b)) => Some(Value::Bool(b)),
            (FloatWork::Text(before, _, after), FloatAnswer::Text(t)) => {
                let s = concat_text(&concat_text(&before, &t), &after);
                Some(Value::Str(s))
            },
            _ => None,
        }
    }
}

} // verus!
