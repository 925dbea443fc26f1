//! The stack machine: a fetch-decode-execute loop over a chunk, with one
//! operand stack and a table of global slots.
//!
//! Every instruction moves the instruction pointer forward, so a run always
//! ends: at `RETURN`, at a fault, or at an operator that needs float work from
//! the host. The host answers that work with [`Vm::resume`], which finishes
//! the operator and runs on.
use vstd::prelude::*;
use crate::chunk::{be16, models, Chunk};
use crate::op;
use crate::value::{
    arith, equal, order, completion, ArithOp, Eval, EvalModel, FloatAnswer, FloatWork, OrderOp,
    Value, ValueModel, WorkModel,
};

verus! {

/// The state of the machine, as mathematics.
pub struct VmModel {
    pub code: Seq<u8>,
    pub constants: Seq<ValueModel>,
    pub ip: int,
    pub stack: Seq<ValueModel>,
    pub globals: Seq<Option<ValueModel>>,
    /// Where the running program's frame starts on the stack; local slots
    /// count from here.
    pub base: int,
}

/// What one instruction does.
pub enum StepModel {
    Next(VmModel),
    Returned(VmModel),
    Fault,
    /// The operator's operands are popped; the host owes the float work.
    Float(VmModel, WorkModel),
}

/// Why a run stopped before `RETURN`.
#[derive(Debug, Clone, PartialEq)]
pub enum Halt {
    /// A run-time fault: a type mismatch, an undefined global, a local out of
    /// range, stack underflow, an unknown opcode or a truncated operand.
    Fault,
    /// Float work for the host, to be answered through [`Vm::resume`].
    Float(FloatWork),
}

pub open spec fn opt_model(o: Option<Value>) -> Option<ValueModel> {
    match o {
        Some(v) => Some(v@),
        None => None,
    }
}

pub open spec fn arith_op(b: u8) -> ArithOp {
    if b == op::ADD {
        ArithOp::Add
    } else if b == op::SUB {
        ArithOp::Sub
    } else if b == op::MULT {
        ArithOp::Mult
    } else {
        ArithOp::Div
    }
}

/// The global table after storing `v` at slot `i`; the table grows with
/// undefined slots as needed.
pub open spec fn store(
    g: Seq<Option<ValueModel>>,
    i: int,
    v: ValueModel,
) -> Seq<Option<ValueModel>> {
    Seq::new(
        if i < g.len() {
            g.len()
        } else {
            (i + 1) as nat
        },
        |k: int|
            if k == i {
                Some(v)
            } else if k < g.len() {
                g[k]
            } else {
                None
            },
    )
}

/// The outcome of an operator whose operands are already popped in `m`.
pub open spec fn settle(m: VmModel, e: EvalModel) -> StepModel {
    match e {
        EvalModel::Fault => StepModel::Fault,
        EvalModel::Ready(v) => StepModel::Next(VmModel { stack: m.stack.push(v), ..m }),
        EvalModel::Defer(w) => StepModel::Float(m, w),
    }
}

/// The one-byte operand after the opcode at `ip`.
pub open spec fn short_operand(m: VmModel) -> Option<int> {
    if m.ip + 2 <= m.code.len() {
        Some(m.code[m.ip + 1] as int)
    } else {
        None
    }
}

/// The two-byte operand after the opcode at `ip`.
pub open spec fn long_operand(m: VmModel) -> Option<int> {
    if m.ip + 3 <= m.code.len() {
        Some(be16(m.code[m.ip + 1], m.code[m.ip + 2]))
    } else {
        None
    }
}

/// The index operand of an instruction with a short and a long form, and
/// where the next instruction starts.
pub open spec fn index_operand(m: VmModel, long: bool) -> Option<(int, int)> {
    if long {
        match long_operand(m) {
            Some(i) => Some((i, m.ip + 3)),
            None => None,
        }
    } else {
        match short_operand(m) {
            Some(i) => Some((i, m.ip + 2)),
            None => None,
        }
    }
}

/// Executes the instruction at `m.ip`.
pub open spec fn step(m: VmModel) -> StepModel {
    if !(0 <= m.ip < m.code.len()) {
        StepModel::Fault
    } else {
        let b = m.code[m.ip];
        let n = m.stack.len();
        let next = VmModel { ip: m.ip + 1, ..m };
        if b == op::ADD || b == op::SUB || b == op::MULT || b == op::DIV || b == op::GT || b
            == op::LT || b == op::EQ {
            if n < 2 {
                StepModel::Fault
            } else {
                let (lhs, rhs) = (m.stack[n - 2], m.stack[n - 1]);
                let popped = VmModel { stack: m.stack.subrange(0, n - 2), ..next };
                if b == op::EQ {
                    settle(popped, EvalModel::Ready(ValueModel::Bool(equal(lhs, rhs))))
                } else if b == op::GT {
                    settle(popped, order(OrderOp::Gt, lhs, rhs))
                } else if b == op::LT {
                    settle(popped, order(OrderOp::Lt, lhs, rhs))
                } else {
                    settle(popped, arith(arith_op(b), lhs, rhs))
                }
            }
        } else if b == op::TRUE {
            StepModel::Next(VmModel { stack: m.stack.push(ValueModel::Bool(true)), ..next })
        } else if b == op::FALSE {
            StepModel::Next(VmModel { stack: m.stack.push(ValueModel::Bool(false)), ..next })
        } else if b == op::NIL {
            StepModel::Next(VmModel { stack: m.stack.push(ValueModel::Nil), ..next })
        } else if b == op::NOT {
            if n < 1 {
                StepModel::Fault
            } else {
                match m.stack[n - 1] {
                    ValueModel::Bool(x) => StepModel::Next(
                        VmModel { stack: m.stack.drop_last().push(ValueModel::Bool(!x)), ..next },
                    ),
                    _ => StepModel::Fault,
                }
            }
        } else if b == op::RETURN {
            StepModel::Returned(next)
        } else if b == op::POP {
            if n < 1 {
                StepModel::Fault
            } else {
                StepModel::Next(VmModel { stack: m.stack.drop_last(), ..next })
            }
        } else if b == op::CONSTANT || b == op::CONSTANT_LONG {
            match index_operand(m, b == op::CONSTANT_LONG) {
                Some((i, ip)) => if i < m.constants.len() {
                    StepModel::Next(VmModel { ip, stack: m.stack.push(m.constants[i]), ..m })
                } else {
                    StepModel::Fault
                },
                None => StepModel::Fault,
            }
        } else if b == op::DEFINE_GLOBAL || b == op::DEFINE_GLOBAL_LONG {
            match index_operand(m, b == op::DEFINE_GLOBAL_LONG) {
                Some((i, ip)) => if n < 1 {
                    StepModel::Fault
                } else {
                    StepModel::Next(
                        VmModel {
                            ip,
                            stack: m.stack.drop_last(),
                            globals: store(m.globals, i, m.stack[n - 1]),
                            ..m
                        },
                    )
                },
                None => StepModel::Fault,
            }
        } else if b == op::GET_GLOBAL || b == op::GET_GLOBAL_LONG {
            match index_operand(m, b == op::GET_GLOBAL_LONG) {
                Some((i, ip)) => if i < m.globals.len() && m.globals[i] is Some {
                    StepModel::Next(VmModel { ip, stack: m.stack.push(m.globals[i]->0), ..m })
                } else {
                    StepModel::Fault
                },
                None => StepModel::Fault,
            }
        } else if b == op::GET_LOCAL || b == op::GET_LOCAL_LONG {
            match index_operand(m, b == op::GET_LOCAL_LONG) {
                Some((i, ip)) => if m.base + i < n {
                    StepModel::Next(VmModel { ip, stack: m.stack.push(m.stack[m.base + i]), ..m })
                } else {
                    StepModel::Fault
                },
                None => StepModel::Fault,
            }
        } else if b == op::COLLAPSE_LOCALS {
            match short_operand(m) {
                Some(k) => if k + 1 <= n {
                    StepModel::Next(
                        VmModel {
                            ip: m.ip + 2,
                            stack: m.stack.subrange(0, n - 1 - k).push(m.stack[n - 1]),
                            ..m
                        },
                    )
                } else {
                    StepModel::Fault
                },
                None => StepModel::Fault,
            }
        } else if b == op::JUMP {
            match long_operand(m) {
                Some(off) => if m.ip + 3 + off <= m.code.len() {
                    StepModel::Next(VmModel { ip: m.ip + 3 + off, ..m })
                } else {
                    StepModel::Fault
                },
                None => StepModel::Fault,
            }
        } else if b == op::JUMP_IF_FALSE {
            match long_operand(m) {
                Some(off) => if n < 1 {
                    StepModel::Fault
                } else {
                    match m.stack[n - 1] {
                        ValueModel::Bool(true) => StepModel::Next(
                            VmModel { ip: m.ip + 3, stack: m.stack.drop_last(), ..m },
                        ),
                        ValueModel::Bool(false) => if m.ip + 3 + off <= m.code.len() {
                            StepModel::Next(
                                VmModel { ip: m.ip + 3 + off, stack: m.stack.drop_last(), ..m },
                            )
                        } else {
                            StepModel::Fault
                        },
                        _ => StepModel::Fault,
                    }
                },
                None => StepModel::Fault,
            }
        } else {
            StepModel::Fault
        }
    }
}

/// `EQ` never faults on a stack of two or more values, whatever their
/// variants: it pushes whether they are equal.
pub proof fn lemma_eq_never_faults(m: VmModel)
    requires
        0 <= m.ip < m.code.len(),
        m.code[m.ip] == op::EQ,
        m.stack.len() >= 2,
    ensures
        step(m) == StepModel::Next(
            VmModel {
                ip: m.ip + 1,
                stack: m.stack.subrange(0, m.stack.len() - 2).push(
                    ValueModel::Bool(equal(m.stack[m.stack.len() - 2], m.stack[m.stack.len() - 1])),
                ),
                ..m
            },
        ),
{
}

/// `COLLAPSE_LOCALS n` leaves the stack `n` values shallower and keeps the
/// value on top: a block's locals go, its result stays.
pub proof fn lemma_collapse_keeps_top(m: VmModel)
    requires
        0 <= m.ip,
        m.ip + 2 <= m.code.len(),
        m.code[m.ip] == op::COLLAPSE_LOCALS,
        m.stack.len() >= m.code[m.ip + 1] + 1,
    ensures
        step(m) matches StepModel::Next(n) && n.stack.len() == m.stack.len() - m.code[m.ip + 1]
            && n.stack.last() == m.stack.last() && n.globals == m.globals,
{
}

/// Runs from `m` until an instruction returns, faults or needs float work:
/// the state that instruction started from, and what it did.
pub open spec fn run_from(m: VmModel) -> (VmModel, StepModel)
    decreases m.code.len() - m.ip,
{
    match step(m) {
        StepModel::Next(n) => if m.ip < n.ip <= m.code.len() && n.code == m.code {
            run_from(n)
        } else {
            (m, StepModel::Fault)
        },
        r => (m, r),
    }
}

/// What one run-time instruction did, in exec form.
enum Stepped {
    Next,
    Returned,
    Fault,
    Float(FloatWork),
}

pub struct Vm {
    chunk: Chunk,
    ip: usize,
    stack: Vec<Value>,
    global: Vec<Option<Value>>,
    base: usize,
    pending: Option<FloatWork>,
}

impl Vm {
    pub closed spec fn model(&self) -> VmModel {
        VmModel {
            code: self.chunk.code(),
            constants: self.chunk.constants(),
            ip: self.ip as int,
            stack: models(self.stack@),
            globals: self.global@.map_values(|o: Option<Value>| opt_model(o)),
            base: self.base as int,
        }
    }

    /// The float work that the machine waits for, if any.
    pub closed spec fn pending(&self) -> Option<WorkModel> {
        match self.pending {
            Some(w) => Some(w@),
            None => None,
        }
    }

    /// `r` is what a run from `start` gives, and `self` the state after it.
    pub open spec fn ran(&self, start: VmModel, r: Result<(), Halt>) -> bool {
        let (last, res) = run_from(start);
        match res {
            StepModel::Returned(n) => r is Ok && self.model() == n && self.pending() is None,
            StepModel::Float(n, w) => {
                &&& (r matches Err(Halt::Float(x)) && x@ == w)
                &&& self.model() == n
                &&& self.pending() == Some(w)
            },
            _ => {
                &&& (r matches Err(Halt::Fault))
                &&& self.model() == last
                &&& self.pending() is None
            },
        }
    }

    pub fn new() -> (r: Vm)
        ensures
            r.model().code == Seq::<u8>::empty(),
            r.model().stack == Seq::<ValueModel>::empty(),
            r.model().globals == Seq::<Option<ValueModel>>::empty(),
            r.model().ip == 0,
            r.model().base == 0,
            r.pending() is None,
    {
        let r = Vm {
            chunk: Chunk::new(),
            ip: 0,
            stack: Vec::new(),
            global: Vec::new(),
            base: 0,
            pending: None,
        };
        assert(r.model().stack =~= Seq::<ValueModel>::empty());
        assert(r.model().globals =~= Seq::<Option<ValueModel>>::empty());
        r
    }

    /// Loads a chunk: execution starts at its first byte, and its program's
    /// frame starts at the current top of the stack. The stack and the
    /// globals are kept.
    pub fn set_chunk(&mut self, chunk: Chunk)
        ensures
            final(self).model() == (VmModel {
                code: chunk.code(),
                constants: chunk.constants(),
                ip: 0,
                base: old(self).model().stack.len() as int,
                ..old(self).model()
            }),
            final(self).pending() is None,
    {
        self.ip = 0;
        self.base = self.stack.len();
        self.chunk = chunk;
        self.pending = None;
    }

    /// Loads `chunk` and runs it.
    pub fn interpret(&mut self, chunk: Chunk) -> (r: Result<(), Halt>)
        ensures
            final(self).ran(
                VmModel {
                    code: chunk.code(),
                    constants: chunk.constants(),
                    ip: 0,
                    base: old(self).model().stack.len() as int,
                    ..old(self).model()
                },
                r,
            ),
    {
        self.set_chunk(chunk);
        self.run()
    }

    /// The number of values on the operand stack.
    pub fn stack_len(&self) -> (r: usize)
        ensures
            r == self.model().stack.len(),
    {
        self.stack.len()
    }

    /// The value on top of the stack: after a run that returned, the
    /// program's result.
    pub fn peek(&self) -> (r: Option<&Value>)
        ensures
            r is None <==> self.model().stack.len() == 0,
            r matches Some(v) ==> v@ == self.model().stack.last(),
    {
        if self.stack.len() == 0 {
            None
        } else {
            Some(&self.stack[self.stack.len() - 1])
        }
    }

    /// Runs from the current instruction until `RETURN`, a fault or float
    /// work for the host. While float work is owed the machine faults.
    pub fn run(&mut self) -> (r: Result<(), Halt>)
        ensures
            old(self).pending() is None ==> final(self).ran(old(self).model(), r),
            old(self).pending() is Some ==> (r matches Err(Halt::Fault)) && final(self).model()
                == old(self).model(),
    {
        if self.pending.is_some() {
            self.pending = None;
            return Err(Halt::Fault);
        }
        if self.ip > self.chunk.get_code_len() {
            return Err(Halt::Fault);
        }
        let ghost start = self.model();
        loop
            invariant
                run_from(self.model()) == run_from(start),
                self.ip <= self.chunk.code().len(),
                self.pending is None,
                old(self).pending is None,
                start == old(self).model(),
            decreases self.chunk.code().len() - self.ip,
        {
            let ghost before = self.model();
            match self.step() {
                Stepped::Next => {},
                Stepped::Returned => {
                    return Ok(());
                },
                Stepped::Fault => {
                    return Err(Halt::Fault);
                },
                Stepped::Float(w) => {
                    self.pending = Some(w.duplicate());
                    return Err(Halt::Float(w));
                },
            }
        }
    }

    /// Finishes the operator that waited for `answer` and runs on. An
    /// answer of the wrong kind, or one that nothing waited for, is a fault.
    pub fn resume(&mut self, answer: FloatAnswer) -> (r: Result<(), Halt>)
        ensures
            match old(self).pending() {
                Some(w) => match completion(w, answer@) {
                    Some(v) => final(self).ran(
                        VmModel { stack: old(self).model().stack.push(v), ..old(self).model() },
                        r,
                    ),
                    None => (r matches Err(Halt::Fault)) && final(self).model() == old(self).model()
                        && final(self).pending() is None,
                },
                None => (r matches Err(Halt::Fault)) && final(self).model() == old(self).model()
                    && final(self).pending() is None,
            },
    {
        let work = match self.pending.take() {
            Some(w) => w,
            None => {
                return Err(Halt::Fault);
            },
        };
        match work.complete(answer) {
            Some(v) => {
                self.stack.push(v);
                proof {
                    assert(models(self.stack@) =~= old(self).model().stack.push(v@));
                }
                self.run()
            },
            None => Err(Halt::Fault),
        }
    }

    fn push(&mut self, v: Value)
        ensures
            final(self).model() == (VmModel { stack: old(self).model().stack.push(v@), ..old(self).model() }),
            final(self).pending == old(self).pending,
    {
        self.stack.push(v);
        assert(models(self.stack@) =~= old(self).model().stack.push(v@));
    }

    /// Pops the top value; the stack is not empty.
    fn pop(&mut self) -> (r: Value)
        requires
            old(self).model().stack.len() > 0,
        ensures
            r@ == old(self).model().stack.last(),
            final(self).model() == (VmModel { stack: old(self).model().stack.drop_last(), ..old(self).model() }),
            final(self).pending == old(self).pending,
    {
        let v = self.stack.pop().unwrap();
        assert(models(self.stack@) =~= old(self).model().stack.drop_last());
        v
    }

    /// Finishes an operator whose operands are popped.
    fn settle(&mut self, e: Eval) -> (r: Stepped)
        ensures
            match settle(old(self).model(), e@) {
                StepModel::Next(n) => r is Next && final(self).model() == n,
                StepModel::Float(n, w) => (r matches Stepped::Float(x) && x@ == w) && final(self).model() == n,
                _ => r is Fault && final(self).model() == old(self).model(),
            },
            final(self).pending == old(self).pending,
    {
        match e {
            Eval::Fault => Stepped::Fault,
            Eval::Ready(v) => {
                self.push(v);
                Stepped::Next
            },
            Eval::Defer(w) => Stepped::Float(w),
        }
    }

    /// Reads the index operand of an instruction at `ip`, short or long.
    fn index_operand(&self, long: bool) -> (r: Option<(usize, usize)>)
        requires
            self.ip < self.chunk.code().len(),
        ensures
            match index_operand(self.model(), long) {
                Some((i, ip)) => r == Some((i as usize, ip as usize)) && ip <= self.chunk.code().len(),
                None => r is None,
            },
    {
        proof {
            self.chunk.lemma_bounds();
        }
        if long {
            match self.chunk.get_long_bytes(self.ip + 1) {
                Some(i) => Some((i as usize, self.ip + 3)),
                None => None,
            }
        } else {
            match self.chunk.get_byte(self.ip + 1) {
                Some(i) => Some((i as usize, self.ip + 2)),
                None => None,
            }
        }
    }

    /// Stores `v` at global slot `i`, growing the table as needed.
    fn define_global(&mut self, i: usize, v: Value)
        requires
            i <= 65535,
        ensures
            final(self).model() == (VmModel {
                globals: store(old(self).model().globals, i as int, v@),
                ..old(self).model()
            }),
            final(self).pending == old(self).pending,
    {
        let ghost g0 = old(self).model().globals;
        if self.global.len() <= i {
        while self.global.len() <= i
            invariant
                i <= 65535,
                self.global@.len() <= i + 1,
                self.global@.len() >= g0.len(),
                self.chunk == old(self).chunk,
                self.stack == old(self).stack,
                self.ip == old(self).ip,
                self.base == old(self).base,
                self.pending == old(self).pending,
                forall|k: int|
                    0 <= k < self.global@.len() ==> #[trigger] opt_model(self.global@[k]) == if k
                        < g0.len() {
                        g0[k]
                    } else {
                        None
                    },
            decreases i + 1 - self.global@.len(),
        {
            self.global.push(None);
        }
        }
        self.global.set(i, Some(v));
        assert(self.model().globals =~= store(g0, i as int, v@));
    }

    /// Executes one instruction.
    fn step(&mut self) -> (r: Stepped)
        requires
            old(self).ip <= old(self).chunk.code().len(),
            old(self).pending is None,
        ensures
            final(self).pending is None,
            final(self).ip <= final(self).chunk.code().len(),
            match step(old(self).model()) {
                StepModel::Next(n) => {
                    &&& r is Next
                    &&& final(self).model() == n
                    &&& old(self).ip < n.ip <= n.code.len()
                    &&& n.code == old(self).model().code
                },
                StepModel::Returned(n) => r is Returned && final(self).model() == n,
                StepModel::Float(n, w) => (r matches Stepped::Float(x) && x@ == w) && final(self).model() == n,
                StepModel::Fault => r is Fault && final(self).model() == old(self).model(),
            },
    {
        let ghost m = self.model();
        proof {
            self.chunk.lemma_bounds();
        }
        let b = match self.chunk.get_byte(self.ip) {
            Some(b) => b,
            None => {
                return Stepped::Fault;
            },
        };
        let n = self.stack.len();
        if b == op::ADD || b == op::SUB || b == op::MULT || b == op::DIV || b == op::GT || b
            == op::LT || b == op::EQ {
            if n < 2 {
                return Stepped::Fault;
            }
            let e = {
                let lhs = &self.stack[n - 2];
                let rhs = &self.stack[n - 1];
                proof {
                    assert(lhs@ == m.stack[n - 2]);
                    assert(rhs@ == m.stack[n - 1]);
                }
                if b == op::EQ {
                    Eval::Ready(Value::Bool(lhs.equals(rhs)))
                } else if b == op::GT {
                    lhs.order(OrderOp::Gt, rhs)
                } else if b == op::LT {
                    lhs.order(OrderOp::Lt, rhs)
                } else {
                    let o = if b == op::ADD {
                        ArithOp::Add
                    } else if b == op::SUB {
                        ArithOp::Sub
                    } else if b == op::MULT {
                        ArithOp::Mult
                    } else {
                        ArithOp::Div
                    };
                    lhs.duplicate().arith(o, rhs.duplicate())
                }
            };
            if matches!(e, Eval::Fault) {
                return Stepped::Fault;
            }
            let _ = self.pop();
            let _ = self.pop();
            proof {
                assert(models(self.stack@) =~= m.stack.subrange(0, n - 2));
            }
            self.ip = self.ip + 1;
            return self.settle(e);
        }
        if b == op::TRUE || b == op::FALSE || b == op::NIL {
            self.ip = self.ip + 1;
            let v = if b == op::TRUE {
                Value::Bool(true)
            } else if b == op::FALSE {
                Value::Bool(false)
            } else {
                Value::Nil
            };
            self.push(v);
            return Stepped::Next;
        }
        if b == op::NOT {
            if n < 1 {
                return Stepped::Fault;
            }
            match &self.stack[n - 1] {
                Value::Bool(_) => {},
                _ => {
                    return Stepped::Fault;
                },
            }
            let v = self.pop();
            self.ip = self.ip + 1;
            match v {
                Value::Bool(x) => {
                    self.push(Value::Bool(!x));
                },
                _ => {},
            }
            return Stepped::Next;
        }
        if b == op::RETURN {
            self.ip = self.ip + 1;
            return Stepped::Returned;
        }
        if b == op::POP {
            if n < 1 {
                return Stepped::Fault;
            }
            let _ = self.pop();
            self.ip = self.ip + 1;
            return Stepped::Next;
        }
        if b == op::CONSTANT || b == op::CONSTANT_LONG {
            let (i, ip) = match self.index_operand(b == op::CONSTANT_LONG) {
                Some(x) => x,
                None => {
                    return Stepped::Fault;
                },
            };
            let v = match self.chunk.get_constant(i) {
                Some(c) => c.duplicate(),
                None => {
                    return Stepped::Fault;
                },
            };
            self.ip = ip;
            self.push(v);
            return Stepped::Next;
        }
        if b == op::DEFINE_GLOBAL || b == op::DEFINE_GLOBAL_LONG {
            let (i, ip) = match self.index_operand(b == op::DEFINE_GLOBAL_LONG) {
                Some(x) => x,
                None => {
                    return Stepped::Fault;
                },
            };
            if n < 1 {
                return Stepped::Fault;
            }
            let v = self.pop();
            self.ip = ip;
            self.define_global(i, v);
            return Stepped::Next;
        }
        if b == op::GET_GLOBAL || b == op::GET_GLOBAL_LONG {
            let (i, ip) = match self.index_operand(b == op::GET_GLOBAL_LONG) {
                Some(x) => x,
                None => {
                    return Stepped::Fault;
                },
            };
            if i >= self.global.len() {
                return Stepped::Fault;
            }
            let v = match &self.global[i] {
                Some(v) => v.duplicate(),
                None => {
                    return Stepped::Fault;
                },
            };
            self.ip = ip;
            self.push(v);
            return Stepped::Next;
        }
        if b == op::GET_LOCAL || b == op::GET_LOCAL_LONG {
            let (i, ip) = match self.index_operand(b == op::GET_LOCAL_LONG) {
                Some(x) => x,
                None => {
                    return Stepped::Fault;
                },
            };
            if self.base > n || i >= n - self.base {
                return Stepped::Fault;
            }
            let v = self.stack[self.base + i].duplicate();
            self.ip = ip;
            self.push(v);
            return Stepped::Next;
        }
        if b == op::COLLAPSE_LOCALS {
            let k = match self.chunk.get_byte(self.ip + 1) {
                Some(k) => k as usize,
                None => {
                    return Stepped::Fault;
                },
            };
            if k + 1 > n {
                return Stepped::Fault;
            }
            let top = self.pop();
            let ghost p = self.stack@;
            let ghost j = n - 1 - k;
            self.stack.truncate(n - 1 - k);
            proof {
                assert(models(p) == m.stack.drop_last());
                assert(models(self.stack@) =~= models(p).subrange(0, j));
                assert(models(p).subrange(0, j) =~= m.stack.subrange(0, j));
            }
            let ghost q = self.stack@;
            self.stack.push(top);
            proof {
                assert(models(self.stack@) =~= models(q).push(top@));
                assert(models(self.stack@) =~= m.stack.subrange(0, n - 1 - k).push(m.stack[n - 1]));
            }
            self.ip = self.ip + 2;
            return Stepped::Next;
        }
        if b == op::JUMP || b == op::JUMP_IF_FALSE {
            let off = match self.chunk.get_long_bytes(self.ip + 1) {
                Some(off) => off as usize,
                None => {
                    return Stepped::Fault;
                },
            };
            let len = self.chunk.get_code_len();
            let target_fits = off <= len - (self.ip + 3);
            if b == op::JUMP {
                if !target_fits {
                    return Stepped::Fault;
                }
                self.ip = self.ip + 3 + off;
                return Stepped::Next;
            }
            if n < 1 {
                return Stepped::Fault;
            }
            let go = match &self.stack[n - 1] {
                Value::Bool(t) => !*t,
                _ => {
                    return Stepped::Fault;
                },
            };
            if go && !target_fits {
                return Stepped::Fault;
            }
            let _ = self.pop();
            self.ip = if go {
                self.ip + 3 + off
            } else {
                self.ip + 3
            };
            return Stepped::Next;
        }
        Stepped::Fault
    }
}

impl Default for Vm {
    fn default() -> (r: Vm)
        ensures
            r.model().code == Seq::<u8>::empty(),
            r.model().stack == Seq::<ValueModel>::empty(),
            r.model().globals == Seq::<Option<ValueModel>>::empty(),
            r.pending() is None,
    {
        Vm::new()
    }
}

} // verus!
