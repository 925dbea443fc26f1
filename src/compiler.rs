//! The code generator: a single pass over the syntax tree that emits bytecode
//! into a chunk, resolves names to global or local slots, and patches forward
//! jumps once their targets are known.
use vstd::prelude::*;
use crate::ast::{BinaryOp, Expr, ExprKind, ParseObj, Stmt, StmtKind, UnaryOp};
use crate::chunk::Chunk;
use crate::codegen::{
    be_bytes, chain, emit, floor0, gen_block, gen_block_body, gen_constant, gen_end_scope,
    gen_expr, gen_literal, gen_prefix, gen_stmt, gen_var_dec, gen_variable, if_layout,
    lemma_expr_keeps_scopes_and_globals, lemma_prefix_fault, lemma_prefix_step, lemma_prefix_zero,
    lemma_stmt_keeps_outer, nothing, program_code, pushed, start_env, Env, Gen,
};
use crate::op;
use crate::value::{Value, ValueModel};

verus! {

broadcast use vstd::std_specs::vec::group_vec_axioms;

/// Why a program could not be compiled.
#[derive(Debug, Clone, Copy, PartialEq, Eq, Structural)]
pub enum CompileError {
    /// A variable that is neither a visible local nor a global.
    NameNotFound,
    /// An operator that the instruction set has no code for.
    UnsupportedOperator,
    /// A statement that the instruction set has no code for.
    UnsupportedStatement,
    /// A branch whose jump offset does not fit in two bytes.
    BranchTooLong,
    /// More than 65536 global slots.
    TooManyGlobals,
    /// More than 65536 constants in one chunk.
    TooManyConstants,
    /// More than 255 locals declared in one block.
    TooManyLocals,
    /// More than 65535 values on the operand stack of one program.
    StackOverflow,
}

/// Where a name lives at run time.
#[derive(Debug, Clone, Copy, PartialEq, Eq, Structural)]
pub enum Slot {
    /// A stack slot, counted from the bottom of the program's frame.
    Local(u16),
    Global(u16),
}

/// A scope's locals in declaration order: name and stack slot.
pub open spec fn scope_model(s: Seq<(String, u16)>) -> Seq<(Seq<char>, u16)> {
    s.map_values(|e: (String, u16)| (e.0@, e.1))
}

/// The slot of the latest local of that name in one scope.
pub open spec fn scope_lookup(s: Seq<(Seq<char>, u16)>, name: Seq<char>) -> Option<u16>
    decreases s.len(),
{
    if s.len() == 0 {
        None
    } else if s.last().0 == name {
        Some(s.last().1)
    } else {
        scope_lookup(s.drop_last(), name)
    }
}

/// The slot of a local, searching from the innermost scope outwards.
pub open spec fn locals_lookup(scopes: Seq<Seq<(Seq<char>, u16)>>, name: Seq<char>) -> Option<u16>
    decreases scopes.len(),
{
    if scopes.len() == 0 {
        None
    } else {
        match scope_lookup(scopes.last(), name) {
            Some(i) => Some(i),
            None => locals_lookup(scopes.drop_last(), name),
        }
    }
}

/// The latest global slot declared under that name.
pub open spec fn global_lookup(globals: Seq<Seq<char>>, name: Seq<char>) -> Option<int>
    decreases globals.len(),
{
    if globals.len() == 0 {
        None
    } else if globals.last() == name {
        Some(globals.len() - 1)
    } else {
        global_lookup(globals.drop_last(), name)
    }
}

/// Name resolution: locals first, innermost scope first, then globals.
pub open spec fn resolve(
    scopes: Seq<Seq<(Seq<char>, u16)>>,
    globals: Seq<Seq<char>>,
    name: Seq<char>,
) -> Option<Slot> {
    match locals_lookup(scopes, name) {
        Some(i) => Some(Slot::Local(i)),
        None => match global_lookup(globals, name) {
            Some(g) => Some(Slot::Global(g as u16)),
            None => None,
        },
    }
}

/// An instruction with an index operand: the short form up to 255, else the
/// long form with a big-endian two-byte operand.
pub open spec fn indexed(short: u8, long: u8, i: int) -> Seq<u8> {
    if i <= 255 {
        seq![short, i as u8]
    } else {
        seq![long, (i / 256) as u8, (i % 256) as u8]
    }
}

/// The instruction that reads a slot.
pub open spec fn read_slot(s: Slot) -> Seq<u8> {
    match s {
        Slot::Local(i) => indexed(op::GET_LOCAL, op::GET_LOCAL_LONG, i as int),
        Slot::Global(i) => indexed(op::GET_GLOBAL, op::GET_GLOBAL_LONG, i as int),
    }
}

/// The instructions of a binary operator, or `None` where it has none.
pub open spec fn binary_code(o: BinaryOp) -> Option<Seq<u8>> {
    match o {
        BinaryOp::Add => Some(seq![op::ADD]),
        BinaryOp::Sub => Some(seq![op::SUB]),
        BinaryOp::Mult => Some(seq![op::MULT]),
        BinaryOp::Div => Some(seq![op::DIV]),
        BinaryOp::Eq => Some(seq![op::EQ]),
        BinaryOp::NotEq => Some(seq![op::EQ, op::NOT]),
        BinaryOp::Gt => Some(seq![op::GT]),
        BinaryOp::Lt => Some(seq![op::LT]),
        _ => None,
    }
}

/// The value that a literal constant stands for.
pub open spec fn literal_value(p: ParseObj) -> ValueModel {
    match p {
        ParseObj::Nil => ValueModel::Nil,
        ParseObj::Bool(b) => ValueModel::Bool(b),
        ParseObj::Int(i) => ValueModel::Int(i),
        ParseObj::Float(f) => ValueModel::Float(f),
        ParseObj::Str(s) => ValueModel::Str(s@),
        ParseObj::Ident(_) => ValueModel::Nil,
    }
}

pub struct Compiler {
    chunk: Chunk,
    /// Global names by slot; a redeclared name gets a new slot.
    globals: Vec<String>,
    /// One list of locals per open block, innermost last.
    scopes: Vec<Vec<(String, u16)>>,
    /// How many values the program's frame holds on the operand stack at
    /// this point of the code.
    depth: usize,
}

impl Compiler {
    pub closed spec fn code(&self) -> Seq<u8> {
        self.chunk.code()
    }

    pub closed spec fn constants(&self) -> Seq<ValueModel> {
        self.chunk.constants()
    }

    /// The global names, by slot.
    pub closed spec fn global_names(&self) -> Seq<Seq<char>> {
        self.globals@.map_values(|s: String| s@)
    }

    /// The open scopes, innermost last.
    pub closed spec fn scopes(&self) -> Seq<Seq<(Seq<char>, u16)>> {
        self.scopes@.map_values(|s: Vec<(String, u16)>| scope_model(s@))
    }

    /// The compile-time depth of the operand stack.
    pub closed spec fn depth(&self) -> nat {
        self.depth as nat
    }

    /// What the compiler knows at this point of the code.
    pub open spec fn env(&self) -> Env {
        Env {
            scopes: self.scopes(),
            globals: self.global_names(),
            depth: self.depth(),
            nconst: self.constants().len(),
        }
    }

    pub open spec fn wf(&self) -> bool {
        &&& self.depth() <= 65535
        &&& self.global_names().len() <= 65536
    }

    /// Going from `before` to `self` gave `r` as the translation scheme
    /// says: on success the code and constants that `spec` adds and its
    /// environment; else exactly its fault.
    pub open spec fn produced(
        &self,
        before: &Compiler,
        r: Result<(), CompileError>,
        spec: Result<Gen, CompileError>,
    ) -> bool {
        match spec {
            Ok(g) => {
                &&& r is Ok
                &&& self.code() == before.code() + g.code
                &&& self.constants() == before.constants() + g.consts
                &&& self.env() == g.env
            },
            Err(e) => r == Err::<(), CompileError>(e),
        }
    }

    pub fn new() -> (r: Compiler)
        ensures
            r.wf(),
            r.global_names() == Seq::<Seq<char>>::empty(),
            r.code() == Seq::<u8>::empty(),
    {
        let r = Compiler { chunk: Chunk::new(), globals: Vec::new(), scopes: Vec::new(), depth: 0 };
        assert(r.global_names() =~= Seq::<Seq<char>>::empty());
        r
    }

    /// Compiles one program, as [`program_code`] says, followed by `RETURN`.
    /// The value of a top-level expression statement stays on the stack as
    /// the program's result. On a fault no chunk is produced and no global
    /// is declared.
    pub fn compile(&mut self, program: &Stmt) -> (r: Result<Chunk, CompileError>)
        requires
            old(self).wf(),
        ensures
            final(self).wf(),
            match program_code(old(self).global_names(), *program) {
                Ok(g) => {
                    &&& r matches Ok(c) && c.code() == g.code.push(op::RETURN) && c.constants()
                        == g.consts
                    &&& final(self).global_names() == g.env.globals
                },
                Err(e) => {
                    &&& r == Err::<Chunk, CompileError>(e)
                    &&& final(self).global_names() == old(self).global_names()
                },
            },
    {
        self.chunk = Chunk::new();
        self.scopes = Vec::new();
        self.depth = 0;
        proof {
            assert(self.scopes() =~= Seq::<Seq<(Seq<char>, u16)>>::empty());
            assert(self.env() == start_env(old(self).global_names()));
        }
        let res = match &program.node {
            StmtKind::ExprStmt { expr } => self.compile_expr(expr),
            StmtKind::VarDec { name, value } => self.declare_global(name, value),
            StmtKind::While { test: _, body: _ } => Err(CompileError::UnsupportedStatement),
        };
        match res {
            Ok(()) => {
                proof {
                    let g = program_code(old(self).global_names(), *program)->Ok_0;
                    assert(self.code() =~= g.code);
                    assert(self.constants() =~= g.consts);
                }
                self.chunk.write_code(op::RETURN);
                let mut out = Chunk::new();
                core::mem::swap(&mut out, &mut self.chunk);
                Ok(out)
            },
            Err(e) => {
                self.chunk = Chunk::new();
                self.scopes = Vec::new();
                self.depth = 0;
                Err(e)
            },
        }
    }

    /// A declaration at the top level: the initializer, then the store into
    /// the next global slot. Nothing is declared when it fails.
    #[verifier::spinoff_prover]
    #[verifier::rlimit(100)]
    fn declare_global(&mut self, name: &String, value: &Expr) -> (r: Result<(), CompileError>)
        requires
            old(self).wf(),
            old(self).scopes().len() == 0,
        ensures
            final(self).wf(),
            r is Err ==> final(self).global_names() == old(self).global_names(),
            final(self).produced(old(self), r, gen_var_dec(name@, *value, old(self).env())),
    {
        match self.compile_expr(value) {
            Ok(()) => {},
            Err(e) => return Err(e),
        }
        let ghost g = gen_expr(*value, old(self).env())->Ok_0;
        proof {
            lemma_expr_keeps_scopes_and_globals(*value, old(self).env());
        }
        if self.globals.len() > 65535 {
            return Err(CompileError::TooManyGlobals);
        }
        let i = self.globals.len() as u16;
        self.globals.push(name.clone());
        proof {
            assert(self.global_names() =~= g.env.globals.push(name@));
        }
        self.emit_indexed(op::DEFINE_GLOBAL, op::DEFINE_GLOBAL_LONG, i);
        self.drop_slots(1);
        proof {
            let tail = indexed(op::DEFINE_GLOBAL, op::DEFINE_GLOBAL_LONG, i as int);
            assert(self.code() =~= old(self).code() + (g.code + tail));
        }
        Ok(())
    }

    /// One more value on the operand stack.
    fn push_slot(&mut self) -> (r: Result<(), CompileError>)
        requires
            old(self).wf(),
        ensures
            final(self).global_names() == old(self).global_names(),
            final(self).wf(),
            final(self).produced(old(self), r, pushed(nothing(old(self).env()))),
    {
        if self.depth >= 65535 {
            return Err(CompileError::StackOverflow);
        }
        self.depth = self.depth + 1;
        assert(old(self).code() + Seq::<u8>::empty() + Seq::<u8>::empty() =~= old(self).code());
        assert(old(self).constants() + Seq::<ValueModel>::empty() =~= old(self).constants());
        Ok(())
    }

    /// `k` values fewer on the operand stack, never below zero.
    fn drop_slots(&mut self, k: usize)
        requires
            old(self).wf(),
        ensures
            final(self).global_names() == old(self).global_names(),
            final(self).wf(),
            final(self).env() == (Env { depth: floor0(old(self).depth() - k), ..old(self).env() }),
            final(self).code() == old(self).code(),
            final(self).constants() == old(self).constants(),
    {
        self.depth = if self.depth >= k {
            self.depth - k
        } else {
            0
        };
    }

    fn compile_stmt(&mut self, s: &Stmt) -> (r: Result<(), CompileError>)
        requires
            old(self).wf(),
            old(self).scopes().len() > 0,
        ensures
            final(self).global_names() == old(self).global_names(),
            final(self).wf(),
            final(self).produced(old(self), r, gen_stmt(*s, old(self).env())),
        decreases s, 0nat,
    {
        match &s.node {
            StmtKind::ExprStmt { expr } => {
                match self.compile_expr(expr) {
                    Ok(()) => {},
                    Err(e) => return Err(e),
                }
                let ghost g = gen_expr(**expr, old(self).env())->Ok_0;
                self.chunk.write_code(op::POP);
                self.drop_slots(1);
                proof {
                    assert(self.code() =~= old(self).code() + (g.code + seq![op::POP]));
                }
                Ok(())
            },
            StmtKind::VarDec { name, value } => self.compile_var_dec(name, value),
            StmtKind::While { test: _, body: _ } => Err(CompileError::UnsupportedStatement),
        }
    }

    #[verifier::spinoff_prover]
    #[verifier::rlimit(100)]
    /// A declaration inside a block: its value stays as the new local.
    fn compile_var_dec(&mut self, name: &String, value: &Expr) -> (r: Result<(), CompileError>)
        requires
            old(self).wf(),
            old(self).scopes().len() > 0,
        ensures
            final(self).global_names() == old(self).global_names(),
            final(self).wf(),
            final(self).produced(old(self), r, gen_var_dec(name@, *value, old(self).env())),
        decreases value, 2nat,
    {
        match self.compile_expr(value) {
            Ok(()) => {},
            Err(e) => return Err(e),
        }
        let ghost g = gen_expr(*value, old(self).env())->Ok_0;
        proof {
            lemma_expr_keeps_scopes_and_globals(*value, old(self).env());
        }
        let slot: u16 = if self.depth > 0 {
            (self.depth - 1) as u16
        } else {
            0
        };
        self.add_local(name, slot);
        Ok(())
    }

    /// Records a local of the innermost scope at stack slot `slot`.
    fn add_local(&mut self, name: &String, slot: u16)
        requires
            old(self).scopes().len() > 0,
        ensures
            final(self).scopes() == old(self).scopes().update(
                old(self).scopes().len() - 1,
                old(self).scopes()[old(self).scopes().len() - 1].push((name@, slot)),
            ),
            final(self).global_names() == old(self).global_names(),
            final(self).depth() == old(self).depth(),
            final(self).code() == old(self).code(),
            final(self).constants() == old(self).constants(),
    {
        let mut scope = self.scopes.pop().unwrap();
        let ghost s0 = scope@;
        scope.push((name.clone(), slot));
        assert(scope_model(scope@) =~= scope_model(s0).push((name@, slot)));
        self.scopes.push(scope);
        assert(self.scopes() =~= old(self).scopes().update(
            old(self).scopes().len() - 1,
            old(self).scopes()[old(self).scopes().len() - 1].push((name@, slot)),
        ));
    }

    fn emit_indexed(&mut self, short: u8, long: u8, i: u16)
        ensures
            final(self).code() == old(self).code() + indexed(short, long, i as int),
            final(self).constants() == old(self).constants(),
            final(self).global_names() == old(self).global_names(),
            final(self).scopes() == old(self).scopes(),
            final(self).depth() == old(self).depth(),
    {
        if i <= 255 {
            self.chunk.write_code(short);
            self.chunk.write_code(i as u8);
            assert(self.code() =~= old(self).code() + indexed(short, long, i as int));
        } else {
            self.chunk.write_code(long);
            self.chunk.write_code((i / 256) as u8);
            self.chunk.write_code((i % 256) as u8);
            assert(self.code() =~= old(self).code() + indexed(short, long, i as int));
        }
    }

    fn compile_expr(&mut self, e: &Expr) -> (r: Result<(), CompileError>)
        requires
            old(self).wf(),
        ensures
            final(self).global_names() == old(self).global_names(),
            final(self).wf(),
            final(self).produced(old(self), r, gen_expr(*e, old(self).env())),
        decreases e, 1nat,
    {
        match &e.node {
            ExprKind::Literal { value } => self.compile_literal(value),
            ExprKind::Group { body } => self.compile_expr(body),
            ExprKind::Unary { op: o, operand } => {
                if *o != UnaryOp::Not {
                    return Err(CompileError::UnsupportedOperator);
                }
                match self.compile_expr(operand) {
                    Ok(()) => {},
                    Err(e) => return Err(e),
                }
                let ghost g = gen_expr(**operand, old(self).env())->Ok_0;
                self.chunk.write_code(op::NOT);
                proof {
                    assert(self.code() =~= old(self).code() + (g.code + seq![op::NOT]));
                    assert(floor0(g.env.depth as int + 0) == g.env.depth);
                }
                Ok(())
            },
            ExprKind::Binary { left, op: o, right } => {
                match self.compile_expr(left) {
                    Ok(()) => {},
                    Err(e) => return Err(e),
                }
                let ghost g1 = gen_expr(**left, old(self).env())->Ok_0;
                match self.compile_expr(right) {
                    Ok(()) => {},
                    Err(e) => return Err(e),
                }
                let ghost h = gen_expr(**right, g1.env)->Ok_0;
                proof {
                    assert(self.code() =~= old(self).code() + (g1.code + h.code));
                    assert(self.constants() =~= old(self).constants() + (g1.consts + h.consts));
                }
                match self.emit_binary_op(*o) {
                    Ok(()) => {},
                    Err(e) => return Err(e),
                }
                self.drop_slots(1);
                proof {
                    let c = binary_code(*o).unwrap();
                    assert(self.code() =~= old(self).code() + ((g1.code + h.code) + c));
                }
                Ok(())
            },
            ExprKind::Block { inner } => self.compile_block(inner),
            ExprKind::If { test: _, body: _, orelse: _ } => self.compile_if(e),
        }
    }

    /// Emits the code of a binary operator.
    fn emit_binary_op(&mut self, o: BinaryOp) -> (r: Result<(), CompileError>)
        ensures
            r is Ok <==> binary_code(o) is Some,
            r is Ok ==> final(self).code() == old(self).code() + binary_code(o).unwrap(),
            r is Err ==> final(self).code() == old(self).code()
                && r == Err::<(), CompileError>(CompileError::UnsupportedOperator),
            final(self).constants() == old(self).constants(),
            final(self).global_names() == old(self).global_names(),
            final(self).scopes() == old(self).scopes(),
            final(self).depth() == old(self).depth(),
    {
        let code = match o {
            BinaryOp::Add => op::ADD,
            BinaryOp::Sub => op::SUB,
            BinaryOp::Mult => op::MULT,
            BinaryOp::Div => op::DIV,
            BinaryOp::Eq => op::EQ,
            BinaryOp::NotEq => {
                self.chunk.write_code(op::EQ);
                self.chunk.write_code(op::NOT);
                assert(self.code() =~= old(self).code() + binary_code(o).unwrap());
                return Ok(());
            },
            BinaryOp::Gt => op::GT,
            BinaryOp::Lt => op::LT,
            _ => {
                return Err(CompileError::UnsupportedOperator);
            },
        };
        self.chunk.write_code(code);
        assert(self.code() =~= old(self).code() + binary_code(o).unwrap());
        Ok(())
    }

    fn compile_literal(&mut self, value: &ParseObj) -> (r: Result<(), CompileError>)
        requires
            old(self).wf(),
        ensures
            final(self).global_names() == old(self).global_names(),
            final(self).wf(),
            final(self).produced(old(self), r, gen_literal(*value, old(self).env())),
    {
        match value {
            ParseObj::Nil => {
                self.chunk.write_code(op::NIL);
                let r = self.push_slot();
                proof {
                    assert(Seq::<u8>::empty() + seq![op::NIL] + Seq::<u8>::empty() =~= seq![op::NIL]);
                    assert(old(self).code().push(op::NIL) =~= old(self).code() + seq![op::NIL]);
                    assert(old(self).constants() + Seq::<ValueModel>::empty() =~= old(self).constants());
                }
                r
            },
            ParseObj::Bool(b) => self.emit_constant(Value::Bool(*b)),
            ParseObj::Int(i) => self.emit_constant(Value::Int(*i)),
            ParseObj::Float(f) => self.emit_constant(Value::Float(*f)),
            ParseObj::Str(s) => self.emit_constant(Value::Str(s.clone())),
            ParseObj::Ident(name) => self.compile_variable(name),
        }
    }

    /// Adds `v` to the constant pool and emits the instruction that pushes it.
    fn emit_constant(&mut self, v: Value) -> (r: Result<(), CompileError>)
        requires
            old(self).wf(),
        ensures
            final(self).global_names() == old(self).global_names(),
            final(self).wf(),
            final(self).produced(old(self), r, gen_constant(v@, old(self).env())),
    {
        if self.chunk.constants_len() > 65535 {
            return Err(CompileError::TooManyConstants);
        }
        let ghost vm = v@;
        let index = self.chunk.write_constant(v);
        self.emit_indexed(op::CONSTANT, op::CONSTANT_LONG, index as u16);
        let r = self.push_slot();
        proof {
            let c = indexed(op::CONSTANT, op::CONSTANT_LONG, index as int);
            assert(c + Seq::<u8>::empty() =~= c);
            assert(old(self).constants() + seq![vm] =~= old(self).constants().push(vm));
            assert(seq![vm] + Seq::<ValueModel>::empty() =~= seq![vm]);
        }
        r
    }

    /// Emits the read of a variable, resolved locals first, then globals.
    fn compile_variable(&mut self, name: &String) -> (r: Result<(), CompileError>)
        requires
            old(self).wf(),
        ensures
            final(self).global_names() == old(self).global_names(),
            final(self).wf(),
            final(self).produced(old(self), r, gen_variable(name@, old(self).env())),
    {
        match self.resolve(name) {
            Some(Slot::Local(i)) => {
                self.emit_indexed(op::GET_LOCAL, op::GET_LOCAL_LONG, i);
            },
            Some(Slot::Global(i)) => {
                self.emit_indexed(op::GET_GLOBAL, op::GET_GLOBAL_LONG, i);
            },
            None => {
                return Err(CompileError::NameNotFound);
            },
        }
        let r = self.push_slot();
        proof {
            let c = read_slot(resolve(old(self).scopes(), old(self).global_names(), name@).unwrap());
            assert(Seq::<u8>::empty() + c + Seq::<u8>::empty() =~= c);
            assert(old(self).constants() + Seq::<ValueModel>::empty() =~= old(self).constants());
        }
        r
    }

    /// Where `name` lives: the latest local of that name in the innermost
    /// scope that has one, else the latest global of that name.
    pub fn resolve(&self, name: &String) -> (r: Option<Slot>)
        requires
            self.wf(),
        ensures
            r == resolve(self.scopes(), self.global_names(), name@),
    {
        let mut k = self.scopes.len();
        assert(self.scopes().subrange(0, k as int) =~= self.scopes());
        while k > 0
            invariant
                k <= self.scopes@.len(),
                locals_lookup(self.scopes(), name@) == locals_lookup(
                    self.scopes().subrange(0, k as int),
                    name@,
                ),
            decreases k,
        {
            let found = find_in_scope(&self.scopes[k - 1], name);
            proof {
                let sub = self.scopes().subrange(0, k as int);
                assert(sub.last() == scope_model(self.scopes@[k - 1]@));
                assert(sub.drop_last() =~= self.scopes().subrange(0, k - 1));
            }
            match found {
                Some(i) => {
                    return Some(Slot::Local(i));
                },
                None => {},
            }
            k = k - 1;
        }
        let mut g = self.globals.len();
        assert(self.global_names().subrange(0, g as int) =~= self.global_names());
        assert(locals_lookup(self.scopes().subrange(0, 0), name@) is None);
        while g > 0
            invariant
                g <= self.globals@.len(),
                self.globals@.len() <= 65536,
                locals_lookup(self.scopes(), name@) is None,
                global_lookup(self.global_names(), name@) == global_lookup(
                    self.global_names().subrange(0, g as int),
                    name@,
                ),
            decreases g,
        {
            proof {
                let sub = self.global_names().subrange(0, g as int);
                assert(sub.drop_last() =~= self.global_names().subrange(0, g - 1));
            }
            if self.globals[g - 1] == *name {
                return Some(Slot::Global((g - 1) as u16));
            }
            g = g - 1;
        }
        assert(self.global_names().subrange(0, 0) =~= Seq::<Seq<char>>::empty());
        None
    }

    /// The code of a block: its statements, then its value, then the
    /// discarding of its locals beneath that value. An empty block is `nil`.
    fn compile_block(&mut self, inner: &Vec<Stmt>) -> (r: Result<(), CompileError>)
        requires
            old(self).wf(),
        ensures
            final(self).global_names() == old(self).global_names(),
            final(self).wf(),
            final(self).produced(old(self), r, gen_block(*inner, old(self).env())),
        decreases inner, 1nat,
    {
        let ghost env0 = old(self).env();
        let ghost c0 = old(self).code();
        let ghost k0 = old(self).constants();
        if inner.len() == 0 {
            self.chunk.write_code(op::NIL);
            let r = self.push_slot();
            proof {
                assert(Seq::<u8>::empty() + seq![op::NIL] + Seq::<u8>::empty() =~= seq![op::NIL]);
                assert(c0.push(op::NIL) =~= c0 + seq![op::NIL]);
                assert(k0 + Seq::<ValueModel>::empty() =~= k0);
            }
            return r;
        }
        self.scopes.push(Vec::new());
        let ghost opened = Env { scopes: env0.scopes.push(Seq::empty()), ..env0 };
        proof {
            assert(scope_model(Seq::<(String, u16)>::empty()) =~= Seq::<(Seq<char>, u16)>::empty());
            assert(self.scopes() =~= env0.scopes.push(Seq::<(Seq<char>, u16)>::empty()));
            assert(self.env() == opened);
        }
        match self.compile_block_body(inner) {
            Ok(()) => {},
            Err(e) => return Err(e),
        }
        let ghost h = gen_block_body(*inner, opened)->Ok_0;
        let r = self.end_scope();
        proof {
            if r is Ok && h.env.scopes.len() > 0 {
                let k = h.env.scopes.last().len();
                let code = if k == 0 {
                    Seq::<u8>::empty()
                } else {
                    seq![op::COLLAPSE_LOCALS, k as u8]
                };
                assert(self.code() =~= c0 + (h.code + code));
                assert(self.constants() =~= k0 + h.consts);
            }
        }
        r
    }

    /// The statements of a non-empty block and its value, in the scope that
    /// the caller opened.
    #[verifier::spinoff_prover]
    #[verifier::rlimit(100)]
    fn compile_block_body(&mut self, inner: &Vec<Stmt>) -> (r: Result<(), CompileError>)
        requires
            old(self).wf(),
            old(self).scopes().len() > 0,
            inner@.len() > 0,
        ensures
            final(self).global_names() == old(self).global_names(),
            final(self).wf(),
            final(self).produced(old(self), r, gen_block_body(*inner, old(self).env())),
        decreases inner, 0nat,
    {
        let ghost c0 = old(self).code();
        let ghost k0 = old(self).constants();
        let ghost env0 = old(self).env();
        let n = inner.len();
        proof {
            lemma_prefix_zero(*inner, env0);
            assert(c0 + Seq::<u8>::empty() =~= c0);
            assert(k0 + Seq::<ValueModel>::empty() =~= k0);
        }
        let mut i: usize = 0;
        let ghost mut g = nothing(env0);
        while i < n - 1
            invariant
                self.wf(),
                n == inner@.len(),
                0 <= i < n,
                c0 == old(self).code(),
                k0 == old(self).constants(),
                env0 == old(self).env(),
                self.scopes().len() > 0,
                self.global_names() == old(self).global_names(),
                gen_prefix(*inner, i as int, env0) == Ok::<Gen, CompileError>(g),
                self.code() == c0 + g.code,
                self.constants() == k0 + g.consts,
                self.env() == g.env,
            decreases n - 1 - i,
        {
            let ghost before = *self;
            match self.compile_stmt(&inner[i]) {
                Ok(()) => {},
                Err(e) => {
                    proof {
                        lemma_prefix_step(*inner, i + 1, env0);
                        lemma_prefix_fault(*inner, i + 1, n - 1, env0);
                    }
                    return Err(e);
                },
            }
            proof {
                g = Compiler::lemma_next_statement(*inner, i as int, env0, g, c0, k0, before, *self);
            }
            i = i + 1;
        }
        let last = &inner[n - 1];
        match &last.node {
            StmtKind::ExprStmt { expr } => {
                match self.compile_expr(expr) {
                    Ok(()) => {},
                    Err(e) => return Err(e),
                }
                proof {
                    let h = gen_expr(**expr, g.env)->Ok_0;
                    assert(self.code() =~= c0 + (g.code + h.code));
                    assert(self.constants() =~= k0 + (g.consts + h.consts));
                }
            },
            _ => {
                match self.compile_stmt(last) {
                    Ok(()) => {},
                    Err(e) => return Err(e),
                }
                let ghost h = gen_stmt(*last, g.env)->Ok_0;
                proof {
                    assert(self.code() =~= c0 + (g.code + h.code));
                    assert(self.constants() =~= k0 + (g.consts + h.consts));
                }
                self.chunk.write_code(op::NIL);
                match self.push_slot() {
                    Ok(()) => {},
                    Err(e) => return Err(e),
                }
                proof {
                    assert(self.code() =~= c0 + ((g.code + h.code) + seq![op::NIL] + Seq::<u8>::empty()));
                    assert(self.constants() =~= k0 + (g.consts + h.consts));
                }
            },
        }
        Ok(())
    }

    /// After statement `i` of a block compiled as the scheme says, the
    /// compiler holds the code of the first `i + 1` statements.
    proof fn lemma_next_statement(
        inner: Vec<Stmt>,
        i: int,
        env0: Env,
        g: Gen,
        c0: Seq<u8>,
        k0: Seq<ValueModel>,
        before: Compiler,
        after: Compiler,
    ) -> (g2: Gen)
        requires
            0 <= i < inner@.len(),
            before.scopes().len() > 0,
            gen_prefix(inner, i, env0) == Ok::<Gen, CompileError>(g),
            before.code() == c0 + g.code,
            before.constants() == k0 + g.consts,
            before.env() == g.env,
            after.produced(&before, Ok(()), gen_stmt(inner@[i], before.env())),
        ensures
            gen_prefix(inner, i + 1, env0) == Ok::<Gen, CompileError>(g2),
            after.code() == c0 + g2.code,
            after.constants() == k0 + g2.consts,
            after.env() == g2.env,
            after.scopes().len() == before.scopes().len(),
    {
        lemma_prefix_step(inner, i + 1, env0);
        lemma_stmt_keeps_outer(inner@[i], g.env);
        let h = gen_stmt(inner@[i], g.env)->Ok_0;
        assert(after.code() =~= c0 + (g.code + h.code));
        assert(after.constants() =~= k0 + (g.consts + h.consts));
        Gen { code: g.code + h.code, consts: g.consts + h.consts, env: h.env }
    }

    /// Closes the innermost scope: its locals are discarded beneath the
    /// value on top of the stack.
    fn end_scope(&mut self) -> (r: Result<(), CompileError>)
        requires
            old(self).wf(),
        ensures
            final(self).global_names() == old(self).global_names(),
            final(self).wf(),
            final(self).produced(old(self), r, gen_end_scope(nothing(old(self).env()))),
    {
        let ghost s0 = old(self).scopes();
        let scope = match self.scopes.pop() {
            Some(scope) => scope,
            None => {
                proof {
                    assert(old(self).code() + Seq::<u8>::empty() =~= old(self).code());
                    assert(old(self).constants() + Seq::<ValueModel>::empty() =~= old(self).constants());
                }
                return Ok(());
            },
        };
        let n = scope.len();
        proof {
            assert(self.scopes() =~= s0.drop_last());
            assert(scope_model(scope@) == s0.last());
        }
        if n > 255 {
            return Err(CompileError::TooManyLocals);
        }
        if n > 0 {
            self.chunk.write_code(op::COLLAPSE_LOCALS);
            self.chunk.write_code(n as u8);
            assert(self.code() =~= old(self).code() + (Seq::<u8>::empty() + seq![op::COLLAPSE_LOCALS, n as u8]));
        } else {
            assert(self.code() =~= old(self).code() + (Seq::<u8>::empty() + Seq::<u8>::empty()));
        }
        self.drop_slots(n);
        assert(old(self).constants() + Seq::<ValueModel>::empty() =~= old(self).constants());
        Ok(())
    }

    /// The code of `if test body else orelse`:
    ///
    /// ```text
    ///     test
    ///     JUMP_IF_FALSE -+      pops the test
    ///     body           |
    ///     JUMP ----------|-+
    ///     orelse    <----+ |    `nil` when there is no else-block
    ///     ...       <------+
    /// ```
    ///
    /// Both offsets are patched once the branch they skip is compiled.
    #[verifier::spinoff_prover]
    #[verifier::rlimit(100)]
    fn compile_if(&mut self, e: &Expr) -> (r: Result<(), CompileError>)
        requires
            old(self).wf(),
            e.node is If,
        ensures
            final(self).global_names() == old(self).global_names(),
            final(self).wf(),
            final(self).produced(old(self), r, gen_expr(*e, old(self).env())),
        decreases e, 0nat,
    {
        let ghost env0 = old(self).env();
        let ghost c0 = old(self).code();
        let ghost k0 = old(self).constants();
        let (test, body, orelse) = match &e.node {
            ExprKind::If { test, body, orelse } => (test, body, orelse),
            _ => {
                return Err(CompileError::UnsupportedStatement);
            },
        };
        match self.compile_expr(test) {
            Ok(()) => {},
            Err(e) => return Err(e),
        }
        let ghost g1r = gen_expr(**test, env0)->Ok_0;
        self.chunk.write_code(op::JUMP_IF_FALSE);
        self.chunk.write_code(0);
        self.chunk.write_code(0);
        self.drop_slots(1);
        let ghost g1 = emit(g1r, seq![op::JUMP_IF_FALSE, 0, 0], -1);
        proof {
            assert(self.code() =~= c0 + g1.code);
            self.chunk.lemma_bounds();
        }
        let t = self.chunk.get_code_len() - 3;
        match self.compile_block(body) {
            Ok(()) => {},
            Err(e) => return Err(e),
        }
        let ghost g2r = gen_block(*body, g1.env)->Ok_0;
        let then_end = self.chunk.get_code_len();
        proof {
            assert(self.code() =~= c0 + g1.code + g2r.code);
        }
        if then_end - (t + 3) > 65532 {
            return Err(CompileError::BranchTooLong);
        }
        self.backfill_long(t + 1, (then_end - t) as u16);
        proof {
            assert(self.code() =~= c0 + g1.code.subrange(0, g1.code.len() - 2) + be_bytes(
                g2r.code.len() + 3 as int,
            ) + g2r.code);
        }
        self.chunk.write_code(op::JUMP);
        self.chunk.write_code(0);
        self.chunk.write_code(0);
        self.drop_slots(1);
        let ghost g2 = emit(g2r, seq![op::JUMP, 0, 0], -1);
        let m = then_end;
        proof {
            assert(self.code() =~= c0 + g1.code.subrange(0, g1.code.len() - 2) + be_bytes(
                g2.code.len() as int,
            ) + g2.code);
            assert(self.constants() =~= k0 + g1.consts + g2.consts);
        }
        let ghost mid = self.code();
        match self.compile_block(orelse) {
            Ok(()) => {},
            Err(e) => return Err(e),
        }
        let ghost g3 = gen_block(*orelse, g2.env)->Ok_0;
        let else_end = self.chunk.get_code_len();
        if else_end - (m + 3) > 65535 {
            return Err(CompileError::BranchTooLong);
        }
        self.backfill_long(m + 1, (else_end - (m + 3)) as u16);
        proof {
            assert(self.code() =~= c0 + if_layout(g1, g2, g3).code);
            assert(self.constants() =~= k0 + if_layout(g1, g2, g3).consts);
        }
        Ok(())
    }

    /// Overwrites the two placeholder bytes at `at` with `v`, big-endian.
    fn backfill_long(&mut self, at: usize, v: u16)
        requires
            at + 1 < old(self).code().len(),
        ensures
            final(self).code() == old(self).code().update(at as int, (v / 256) as u8).update(
                at + 1,
                (v % 256) as u8,
            ),
            final(self).constants() == old(self).constants(),
            final(self).global_names() == old(self).global_names(),
            final(self).scopes() == old(self).scopes(),
            final(self).depth() == old(self).depth(),
    {
        proof {
            self.chunk.lemma_bounds();
        }
        self.chunk.backfill(at, (v / 256) as u8);
        self.chunk.backfill(at + 1, (v % 256) as u8);
    }
}

/// The slot of the latest local named `name` in one scope.
fn find_in_scope(scope: &Vec<(String, u16)>, name: &String) -> (r: Option<u16>)
    ensures
        r == scope_lookup(scope_model(scope@), name@),
{
    let mut k = scope.len();
    assert(scope_model(scope@).subrange(0, k as int) =~= scope_model(scope@));
    while k > 0
        invariant
            k <= scope@.len(),
            scope_lookup(scope_model(scope@), name@) == scope_lookup(
                scope_model(scope@).subrange(0, k as int),
                name@,
            ),
        decreases k,
    {
        proof {
            let sub = scope_model(scope@).subrange(0, k as int);
            assert(sub.drop_last() =~= scope_model(scope@).subrange(0, k - 1));
        }
        if scope[k - 1].0 == *name {
            return Some(scope[k - 1].1);
        }
        k = k - 1;
    }
    proof {
        assert(scope_model(scope@).subrange(0, 0) =~= Seq::<(Seq<char>, u16)>::empty());
    }
    None
}

} // verus!
