//! The translation scheme of the compiler, as mathematics: the code, the
//! constants and the compile-time environment that each syntax node gives,
//! or the fault that stops it.
use vstd::prelude::*;
use crate::ast::{Expr, ExprKind, ParseObj, Stmt, StmtKind, UnaryOp};
use crate::compiler::{
    binary_code, global_lookup, indexed, literal_value, read_slot, resolve, CompileError,
};
use crate::op;
use crate::value::ValueModel;

verus! {

broadcast use vstd::std_specs::vec::group_vec_axioms;

/// What the compiler knows at a point of the code.
pub struct Env {
    /// The open scopes, innermost last: each local's name and stack slot.
    pub scopes: Seq<Seq<(Seq<char>, u16)>>,
    /// The global names, by slot.
    pub globals: Seq<Seq<char>>,
    /// How many values the program's frame holds on the operand stack.
    pub depth: nat,
    /// How many constants the chunk holds.
    pub nconst: nat,
}

/// The code and constants that a node adds, and the environment after it.
pub struct Gen {
    pub code: Seq<u8>,
    pub consts: Seq<ValueModel>,
    pub env: Env,
}

/// The environment at the start of a program: no open scope, an empty
/// stack frame and an empty constant pool.
pub open spec fn start_env(globals: Seq<Seq<char>>) -> Env {
    Env { scopes: Seq::empty(), globals, depth: 0, nconst: 0 }
}

/// Nothing added.
pub open spec fn nothing(env: Env) -> Gen {
    Gen { code: Seq::empty(), consts: Seq::empty(), env }
}

/// `x`, but never below zero.
pub open spec fn floor0(x: int) -> nat {
    if x < 0 {
        0
    } else {
        x as nat
    }
}

/// `g`, then what compiling the next piece from `g`'s environment gives.
pub open spec fn chain(g: Gen, next: Result<Gen, CompileError>) -> Result<Gen, CompileError> {
    match next {
        Ok(h) => Ok(Gen { code: g.code + h.code, consts: g.consts + h.consts, env: h.env }),
        Err(e) => Err(e),
    }
}

/// `g` followed by `code`, with the stack changed by `delta` values.
pub open spec fn emit(g: Gen, code: Seq<u8>, delta: int) -> Gen {
    Gen { code: g.code + code, env: Env { depth: floor0(g.env.depth + delta), ..g.env }, ..g }
}

/// One more value on the stack, which holds at most 65535.
pub open spec fn pushed(g: Gen) -> Result<Gen, CompileError> {
    if g.env.depth >= 65535 {
        Err(CompileError::StackOverflow)
    } else {
        Ok(emit(g, Seq::empty(), 1))
    }
}

/// The big-endian bytes of a 16-bit number.
pub open spec fn be_bytes(v: int) -> Seq<u8> {
    seq![(v / 256) as u8, (v % 256) as u8]
}

/// A constant: added to the pool, which holds at most 65536, and pushed.
pub open spec fn gen_constant(v: ValueModel, env: Env) -> Result<Gen, CompileError> {
    if env.nconst > 65535 {
        Err(CompileError::TooManyConstants)
    } else {
        pushed(
            Gen {
                code: indexed(op::CONSTANT, op::CONSTANT_LONG, env.nconst as int),
                consts: seq![v],
                env: Env { nconst: env.nconst + 1, ..env },
            },
        )
    }
}

/// A variable: read from the slot that its name resolves to.
pub open spec fn gen_variable(name: Seq<char>, env: Env) -> Result<Gen, CompileError> {
    match resolve(env.scopes, env.globals, name) {
        Some(s) => pushed(emit(nothing(env), read_slot(s), 0)),
        None => Err(CompileError::NameNotFound),
    }
}

/// A literal: `nil` has its own instruction, a name is read from its slot,
/// any other literal goes to the constant pool (one entry per occurrence).
pub open spec fn gen_literal(p: ParseObj, env: Env) -> Result<Gen, CompileError> {
    match p {
        ParseObj::Nil => pushed(emit(nothing(env), seq![op::NIL], 0)),
        ParseObj::Ident(name) => gen_variable(name@, env),
        _ => gen_constant(literal_value(p), env),
    }
}

/// The layout of `if`: the test, a conditional jump over the then-block and
/// the jump after it, the then-block, a jump over the else-block, the
/// else-block. `test` ends with the placeholder of the conditional jump and
/// `then_part` with that of the jump.
pub open spec fn if_layout(test: Gen, then_part: Gen, else_part: Gen) -> Gen {
    Gen {
        code: test.code.subrange(0, test.code.len() - 2) + be_bytes(then_part.code.len() as int)
            + then_part.code.subrange(0, then_part.code.len() - 2) + be_bytes(
            else_part.code.len() as int,
        ) + else_part.code,
        consts: test.consts + then_part.consts + else_part.consts,
        env: else_part.env,
    }
}

/// The code of an expression: it leaves its value on the stack.
pub open spec fn gen_expr(e: Expr, env: Env) -> Result<Gen, CompileError>
    decreases e, 1nat,
{
    match e.node {
        ExprKind::Literal { value } => gen_literal(value, env),
        ExprKind::Group { body } => gen_expr(*body, env),
        ExprKind::Unary { op: o, operand } => if o != UnaryOp::Not {
            Err(CompileError::UnsupportedOperator)
        } else {
            match gen_expr(*operand, env) {
                Ok(g) => Ok(emit(g, seq![op::NOT], 0)),
                Err(err) => Err(err),
            }
        },
        ExprKind::Binary { left, op: o, right } => match gen_expr(*left, env) {
            Ok(g1) => match chain(g1, gen_expr(*right, g1.env)) {
                Ok(g2) => match binary_code(o) {
                    Some(c) => Ok(emit(g2, c, -1)),
                    None => Err(CompileError::UnsupportedOperator),
                },
                Err(err) => Err(err),
            },
            Err(err) => Err(err),
        },
        ExprKind::Block { inner } => gen_block(inner, env),
        ExprKind::If { test, body, orelse } => match gen_expr(*test, env) {
            Ok(g1) => {
                let g1 = emit(g1, seq![op::JUMP_IF_FALSE, 0, 0], -1);
                match gen_block(body, g1.env) {
                    Ok(g2) => if g2.code.len() + 3 > 65535 {
                        Err(CompileError::BranchTooLong)
                    } else {
                        let g2 = emit(g2, seq![op::JUMP, 0, 0], -1);
                        match gen_block(orelse, g2.env) {
                            Ok(g3) => if g3.code.len() > 65535 {
                                Err(CompileError::BranchTooLong)
                            } else {
                                Ok(if_layout(g1, g2, g3))
                            },
                            Err(err) => Err(err),
                        }
                    },
                    Err(err) => Err(err),
                }
            },
            Err(err) => Err(err),
        },
    }
}

/// The code of a statement: it leaves the stack as it found it, but for a
/// declaration in a block, whose value stays as the new local.
pub open spec fn gen_stmt(s: Stmt, env: Env) -> Result<Gen, CompileError>
    decreases s, 2nat,
{
    match s.node {
        StmtKind::ExprStmt { expr } => match gen_expr(*expr, env) {
            Ok(g) => Ok(emit(g, seq![op::POP], -1)),
            Err(err) => Err(err),
        },
        StmtKind::VarDec { name, value } => gen_var_dec(name@, *value, env),
        StmtKind::While { test: _, body: _ } => Err(CompileError::UnsupportedStatement),
    }
}

/// A declaration: at the top level the initializer's value is stored in
/// the next global slot; in a block no instruction follows the initializer,
/// whose value stays on the stack as the new local.
pub open spec fn gen_var_dec(name: Seq<char>, value: Expr, env: Env) -> Result<Gen, CompileError>
    decreases value, 3nat,
{
    match gen_expr(value, env) {
        Ok(g) => if g.env.scopes.len() == 0 {
            if g.env.globals.len() > 65535 {
                Err(CompileError::TooManyGlobals)
            } else {
                let slot = g.env.globals.len() as int;
                let g = emit(g, indexed(op::DEFINE_GLOBAL, op::DEFINE_GLOBAL_LONG, slot), -1);
                Ok(Gen { env: Env { globals: g.env.globals.push(name), ..g.env }, ..g })
            }
        } else {
            let last = g.env.scopes.len() - 1;
            let local = (name, floor0(g.env.depth - 1) as u16);
            Ok(
                Gen {
                    env: Env {
                        scopes: g.env.scopes.update(last, g.env.scopes[last].push(local)),
                        ..g.env
                    },
                    ..g
                },
            )
        },
        Err(err) => Err(err),
    }
}

/// The first `n` statements of a block, in order.
pub open spec fn gen_prefix(inner: Vec<Stmt>, n: int, env: Env) -> Result<Gen, CompileError>
    decreases inner, 0nat, n,
{
    if n <= 0 || n > inner@.len() {
        Ok(nothing(env))
    } else {
        match gen_prefix(inner, n - 1, env) {
            Ok(g) => chain(g, gen_stmt(inner@[n - 1], g.env)),
            Err(err) => Err(err),
        }
    }
}

/// The statements of a non-empty block, in its own scope, and its value:
/// that of the last statement where that is an expression, else `nil`.
pub open spec fn gen_block_body(inner: Vec<Stmt>, env: Env) -> Result<Gen, CompileError>
    decreases inner, 1nat, 0int,
{
    let n = inner@.len() as int;
    match gen_prefix(inner, n - 1, env) {
        Ok(g) => if n <= 0 {
            Ok(g)
        } else {
            match inner@[n - 1].node {
                StmtKind::ExprStmt { expr } => chain(g, gen_expr(*expr, g.env)),
                _ => match chain(g, gen_stmt(inner@[n - 1], g.env)) {
                    Ok(h) => pushed(emit(h, seq![op::NIL], 0)),
                    Err(err) => Err(err),
                },
            }
        },
        Err(err) => Err(err),
    }
}

/// Closes the innermost scope: its locals, at most 255, are discarded
/// beneath the value on top of the stack by one `COLLAPSE_LOCALS`.
pub open spec fn gen_end_scope(h: Gen) -> Result<Gen, CompileError> {
    if h.env.scopes.len() == 0 {
        Ok(h)
    } else {
        let k = h.env.scopes.last().len();
        if k > 255 {
            Err(CompileError::TooManyLocals)
        } else {
            let code = if k == 0 {
                Seq::empty()
            } else {
                seq![op::COLLAPSE_LOCALS, k as u8]
            };
            let h = emit(h, code, -k);
            Ok(Gen { env: Env { scopes: h.env.scopes.drop_last(), ..h.env }, ..h })
        }
    }
}

/// The code of a block: its statements in a new scope, its value, then the
/// discarding of its locals beneath that value. An empty block is `nil`.
pub open spec fn gen_block(inner: Vec<Stmt>, env: Env) -> Result<Gen, CompileError>
    decreases inner, 2nat, 0int,
{
    if inner@.len() == 0 {
        pushed(emit(nothing(env), seq![op::NIL], 0))
    } else {
        let opened = Env { scopes: env.scopes.push(Seq::empty()), ..env };
        match gen_block_body(inner, opened) {
            Ok(h) => gen_end_scope(h),
            Err(err) => Err(err),
        }
    }
}

/// The code of a whole program, before its final `RETURN`: the value of a
/// top-level expression statement stays on the stack as the result.
pub open spec fn program_code(globals: Seq<Seq<char>>, program: Stmt) -> Result<Gen, CompileError> {
    match program.node {
        StmtKind::ExprStmt { expr } => gen_expr(*expr, start_env(globals)),
        _ => gen_stmt(program, start_env(globals)),
    }
}

/// A then-block whose code, with the jump after it, does not fit a 16-bit
/// offset is rejected with `BranchTooLong`, never truncated; so is such an
/// else-block.
pub proof fn lemma_long_branch_rejected(e: Expr, env: Env)
    ensures
        match e.node {
            ExprKind::If { test, body, orelse } => match gen_expr(*test, env) {
                Ok(g1) => {
                    let g1 = emit(g1, seq![op::JUMP_IF_FALSE, 0, 0], -1);
                    match gen_block(body, g1.env) {
                        Ok(g2) => {
                            &&& g2.code.len() + 3 > 65535 ==> gen_expr(e, env) == Err::<
                                Gen,
                                CompileError,
                            >(CompileError::BranchTooLong)
                            &&& g2.code.len() + 3 <= 65535 ==> {
                                let g2 = emit(g2, seq![op::JUMP, 0, 0], -1);
                                gen_block(orelse, g2.env) matches Ok(g3) && g3.code.len() > 65535
                                    ==> gen_expr(e, env) == Err::<Gen, CompileError>(
                                    CompileError::BranchTooLong,
                                )
                            }
                        },
                        Err(_) => true,
                    }
                },
                Err(_) => true,
            },
            _ => true,
        },
{
}

/// Declaring the same name twice at the top level gives two different
/// global slots, the next free one each time; the name then resolves to the
/// second, and the first slot keeps its place in the table.
#[verifier::spinoff_prover]
#[verifier::rlimit(100)]
pub proof fn lemma_redeclared_global_gets_new_slot(
    globals: Seq<Seq<char>>,
    name: Seq<char>,
    v1: Expr,
    v2: Expr,
)
    requires
        gen_var_dec(name, v1, start_env(globals)) is Ok,
        gen_var_dec(
            name,
            v2,
            start_env(gen_var_dec(name, v1, start_env(globals))->Ok_0.env.globals),
        ) is Ok,
    ensures
        ({
            let g1 = gen_var_dec(name, v1, start_env(globals))->Ok_0;
            let g2 = gen_var_dec(name, v2, start_env(g1.env.globals))->Ok_0;
            let d1 = indexed(op::DEFINE_GLOBAL, op::DEFINE_GLOBAL_LONG, globals.len() as int);
            let d2 = indexed(op::DEFINE_GLOBAL, op::DEFINE_GLOBAL_LONG, (globals.len() + 1) as int);
            &&& g1.code.len() >= d1.len()
            &&& g1.code.subrange(g1.code.len() - d1.len(), g1.code.len() as int) == d1
            &&& g2.code.len() >= d2.len()
            &&& g2.code.subrange(g2.code.len() - d2.len(), g2.code.len() as int) == d2
            &&& g2.env.globals == globals.push(name).push(name)
            &&& global_lookup(g2.env.globals, name) == Some((globals.len() + 1) as int)
        }),
{
    let e1 = gen_expr(v1, start_env(globals))->Ok_0;
    let g1 = gen_var_dec(name, v1, start_env(globals))->Ok_0;
    let e2 = gen_expr(v2, start_env(g1.env.globals))->Ok_0;
    let g2 = gen_var_dec(name, v2, start_env(g1.env.globals))->Ok_0;
    let d1 = indexed(op::DEFINE_GLOBAL, op::DEFINE_GLOBAL_LONG, globals.len() as int);
    let d2 = indexed(op::DEFINE_GLOBAL, op::DEFINE_GLOBAL_LONG, (globals.len() + 1) as int);
    lemma_expr_keeps_scopes_and_globals(v1, start_env(globals));
    lemma_expr_keeps_scopes_and_globals(v2, start_env(g1.env.globals));
    assert(g1.code.subrange(g1.code.len() - d1.len(), g1.code.len() as int) =~= d1);
    assert(g2.code.subrange(g2.code.len() - d2.len(), g2.code.len() as int) =~= d2);
    assert(g2.env.globals.last() == name);
}

/// An expression opens and closes its own scopes and declares no global.
pub proof fn lemma_expr_keeps_scopes_and_globals(e: Expr, env: Env)
    ensures
        gen_expr(e, env) matches Ok(g) ==> g.env.scopes == env.scopes && g.env.globals
            == env.globals,
    decreases e, 1nat,
{
    match e.node {
        ExprKind::Literal { value: _ } => {},
        ExprKind::Group { body } => lemma_expr_keeps_scopes_and_globals(*body, env),
        ExprKind::Unary { op: _, operand } => lemma_expr_keeps_scopes_and_globals(*operand, env),
        ExprKind::Binary { left, op: _, right } => {
            lemma_expr_keeps_scopes_and_globals(*left, env);
            if let Ok(g1) = gen_expr(*left, env) {
                lemma_expr_keeps_scopes_and_globals(*right, g1.env);
            }
        },
        ExprKind::Block { inner } => lemma_block_keeps_scopes_and_globals(inner, env),
        ExprKind::If { test, body, orelse } => {
            lemma_expr_keeps_scopes_and_globals(*test, env);
            if let Ok(g1) = gen_expr(*test, env) {
                let g1 = emit(g1, seq![op::JUMP_IF_FALSE, 0, 0], -1);
                lemma_block_keeps_scopes_and_globals(body, g1.env);
                if let Ok(g2) = gen_block(body, g1.env) {
                    let g2 = emit(g2, seq![op::JUMP, 0, 0], -1);
                    lemma_block_keeps_scopes_and_globals(orelse, g2.env);
                }
            }
        },
    }
}

/// The outer scopes and the globals, as a statement inside a block leaves
/// them.
pub open spec fn keeps_outer(g: Env, env: Env) -> bool {
    &&& g.scopes.len() == env.scopes.len()
    &&& g.scopes.drop_last() == env.scopes.drop_last()
    &&& g.globals == env.globals
}

/// A statement inside a block changes only the innermost scope.
pub proof fn lemma_stmt_keeps_outer(s: Stmt, env: Env)
    requires
        env.scopes.len() > 0,
    ensures
        gen_stmt(s, env) matches Ok(g) ==> keeps_outer(g.env, env),
    decreases s, 2nat,
{
    match s.node {
        StmtKind::ExprStmt { expr } => lemma_expr_keeps_scopes_and_globals(*expr, env),
        StmtKind::VarDec { name, value } => {
            lemma_expr_keeps_scopes_and_globals(*value, env);
            if let Ok(g) = gen_expr(*value, env) {
                let last = g.env.scopes.len() - 1;
                let local = (name@, floor0(g.env.depth - 1) as u16);
                assert(g.env.scopes.update(last, g.env.scopes[last].push(local)).drop_last()
                    =~= env.scopes.drop_last());
            }
        },
        StmtKind::While { test: _, body: _ } => {},
    }
}

/// The first statements of a block change only the innermost scope.
pub proof fn lemma_prefix_keeps_outer(inner: Vec<Stmt>, n: int, env: Env)
    requires
        env.scopes.len() > 0,
    ensures
        gen_prefix(inner, n, env) matches Ok(g) ==> keeps_outer(g.env, env),
    decreases inner, 0nat, n,
{
    if n > 0 && n <= inner@.len() {
        lemma_prefix_keeps_outer(inner, n - 1, env);
        if let Ok(g) = gen_prefix(inner, n - 1, env) {
            lemma_stmt_keeps_outer(inner@[n - 1], g.env);
        }
    }
}

/// The body of a block changes only the innermost scope.
pub proof fn lemma_body_keeps_outer(inner: Vec<Stmt>, env: Env)
    requires
        env.scopes.len() > 0,
    ensures
        gen_block_body(inner, env) matches Ok(g) ==> keeps_outer(g.env, env),
    decreases inner, 1nat, 0int,
{
    let n = inner@.len() as int;
    lemma_prefix_keeps_outer(inner, n - 1, env);
    if let Ok(g) = gen_prefix(inner, n - 1, env) {
        if n > 0 {
            match inner@[n - 1].node {
                StmtKind::ExprStmt { expr } => lemma_expr_keeps_scopes_and_globals(*expr, g.env),
                _ => lemma_stmt_keeps_outer(inner@[n - 1], g.env),
            }
        }
    }
}

/// A block closes the scope it opens and declares no global.
pub proof fn lemma_block_keeps_scopes_and_globals(inner: Vec<Stmt>, env: Env)
    ensures
        gen_block(inner, env) matches Ok(g) ==> g.env.scopes == env.scopes && g.env.globals
            == env.globals,
    decreases inner, 2nat, 0int,
{
    if inner@.len() > 0 {
        let opened = Env { scopes: env.scopes.push(Seq::empty()), ..env };
        lemma_body_keeps_outer(inner, opened);
        assert(opened.scopes.drop_last() =~= env.scopes);
    }
}

/// One more statement of a block.
pub proof fn lemma_prefix_step(inner: Vec<Stmt>, n: int, env: Env)
    requires
        0 < n <= inner@.len(),
    ensures
        gen_prefix(inner, n, env) == match gen_prefix(inner, n - 1, env) {
            Ok(g) => chain(g, gen_stmt(inner@[n - 1], g.env)),
            Err(err) => Err(err),
        },
{
}

/// A fault in the first `i` statements of a block is the fault of any
/// longer prefix.
pub proof fn lemma_prefix_fault(inner: Vec<Stmt>, i: int, j: int, env: Env)
    requires
        0 <= i <= j <= inner@.len(),
        gen_prefix(inner, i, env) is Err,
    ensures
        gen_prefix(inner, j, env) == gen_prefix(inner, i, env),
    decreases j - i,
{
    if j > i {
        lemma_prefix_fault(inner, i, j - 1, env);
        lemma_prefix_step(inner, j, env);
    }
}

/// No statement of a block yet.
pub proof fn lemma_prefix_zero(inner: Vec<Stmt>, env: Env)
    ensures
        gen_prefix(inner, 0, env) == Ok::<Gen, CompileError>(nothing(env)),
{
}

} // verus!
