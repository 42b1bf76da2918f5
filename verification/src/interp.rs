//! The evaluator.
//!
//! The meaning of a program is pinned down by a family of spec functions
//! (`spec_eval`, `spec_exec_stmt`, ...) over a mathematical state: the
//! frame store, the lines printed so far, and a queue of pre-supplied
//! clock readings. The executable evaluator is proved to produce exactly
//! that outcome.
//!
//! Two escapes from pure mathematics are handled explicitly:
//! - `clock` with an empty reading queue falls back to the wall clock; the
//!   spec marks such an outcome `dry`, and the contracts promise the spec
//!   outcome only for runs that never go dry. A program that does not call
//!   `clock` never goes dry.
//! - recursion depth is bounded by a fuel parameter; a call at fuel zero
//!   fails with a stack-overflow error, and so does each further iteration
//!   of a `while` once fuel is spent, which keeps the semantics total.

use vstd::prelude::*;
use vstd::string::StringExecFns;
use crate::ast::{BinaryOp, Expr, LiteralValue, LogicalOp, Stmt, Token, UnaryOp};
use crate::ast::{expr_height, exprs_height, stmt_height, stmts_height, lemma_exprs_height_elem, lemma_stmts_height_elem};
use crate::value::{ErrV, NativeFn, RuntimeError, Val, Value, compare_equality, is_truthy, rc_clone, truthy, val_wf, vals_equal, value_clone};
use crate::env::{Environment, FrameV, ancestor, assign_at_spec, assoc_get, chain_assign, chain_get, env_wf, get_at_spec};
use crate::num::{POS_ZERO_BITS, NEG_ZERO_BITS, add_bits, div_bits, is_zero_bits, le_bits, lt_bits, mul_bits, neg_bits, sub_bits, num_add, num_div, num_lt, num_le, num_mul, num_neg, num_sub, clock_now_bits};
use crate::text::{arity_message, arity_text, text_of, value_text};

verus! {

/// The resolver's side table: expression id to scope depth, newest entry
/// last.
pub open spec fn depth_of(locals: Seq<(u64, usize)>, id: u64) -> Option<usize>
    decreases locals.len(),
{
    if locals.len() == 0 {
        Option::None
    } else if locals.last().0 == id {
        Option::Some(locals.last().1)
    } else {
        depth_of(locals.drop_last(), id)
    }
}

/// The depth the resolver recorded for an expression id, if any.
pub fn lookup_depth(locals: &Vec<(u64, usize)>, id: u64) -> (r: Option<usize>)
    ensures
        r == depth_of(locals@, id),
{
    let mut i: usize = locals.len();
    proof {
        assert(locals@.take(locals@.len() as int) =~= locals@);
    }
    while i > 0
        invariant
            i <= locals.len(),
            depth_of(locals@, id) == depth_of(locals@.take(i as int), id),
        decreases i,
    {
        i = i - 1;
        proof {
            assert(locals@.take(i as int + 1).last() == locals@[i as int]);
            assert(locals@.take(i as int + 1).drop_last() =~= locals@.take(i as int));
        }
        if locals[i].0 == id {
            return Some(locals[i].1);
        }
    }
    proof {
        assert(locals@.take(0) =~= Seq::<(u64, usize)>::empty());
    }
    None
}

/// The mathematical state of a run: the frame store, the lines printed so
/// far, and the queue of pre-supplied clock readings, next reading last.
pub struct StateV {
    pub frames: Seq<FrameV>,
    pub out: Seq<Seq<char>>,
    pub ticks: Seq<u64>,
}

pub open spec fn st_wf(st: StateV) -> bool {
    env_wf(st.frames)
}

/// The interpreter: its environment, the lines it has printed, and a
/// queue of pre-supplied clock readings (used up before the wall clock is
/// consulted; tests pin `clock` with it).
pub struct Interp {
    pub env: Environment,
    pub out: Vec<String>,
    pub ticks: Vec<u64>,
}

impl View for Interp {
    type V = StateV;

    open spec fn view(&self) -> StateV {
        StateV {
            frames: self.env@,
            out: self.out@.map_values(|s: String| s@),
            ticks: self.ticks@,
        }
    }
}

/// The state a fresh interpreter starts in: one global frame holding the
/// native `clock`, nothing printed, no pre-supplied readings.
pub open spec fn init_state() -> StateV {
    StateV {
        frames: seq![
            FrameV {
                parent: Option::None,
                binds: seq![("clock"@, Val::Native(NativeFn::Clock))],
            },
        ],
        out: Seq::empty(),
        ticks: Seq::empty(),
    }
}

impl Interp {
    /// A fresh interpreter over a global frame pre-populated with the
    /// native bindings.
    pub fn new() -> (r: Interp)
        ensures
            r@ == init_state(),
            st_wf(r@),
    {
        let mut env = Environment::new();
        env.define_natives();
        let r = Interp { env, out: Vec::new(), ticks: Vec::new() };
        proof {
            assert(r@.frames =~~= init_state().frames);
            assert(r@.out =~~= init_state().out);
            assert(r@.ticks =~~= init_state().ticks);
        }
        r
    }

    /// Pre-supply a clock reading: the next `clock` call will return the
    /// double with these bits instead of consulting the wall clock.
    pub fn push_tick(&mut self, t: u64)
        ensures
            final(self)@ == (StateV { ticks: old(self)@.ticks.push(t), ..old(self)@ }),
    {
        self.ticks.push(t);
    }

    /// The lines printed so far.
    pub fn output(&self) -> (r: &Vec<String>)
        ensures
            r@.map_values(|s: String| s@) == self@.out,
    {
        &self.out
    }
}

/// Outcome of evaluating an expression.
pub struct EOut {
    pub st: StateV,
    pub res: Result<Val, ErrV>,
    pub dry: bool,
}

/// Outcome of evaluating an argument list.
pub struct AOut {
    pub st: StateV,
    pub res: Result<Seq<Val>, ErrV>,
    pub dry: bool,
}

/// Outcome of executing a statement or statement list.
pub struct SOut {
    pub st: StateV,
    pub res: Result<(), ErrV>,
    pub dry: bool,
}

pub open spec fn lit_val(l: LiteralValue) -> Val {
    match l {
        LiteralValue::Number(b) => Val::Num(b),
        LiteralValue::Str(s) => Val::Str(s@),
        LiteralValue::Boolean(b) => Val::Bool(b),
        LiteralValue::Nil => Val::Nil,
    }
}

/// What a unary operator yields on an evaluated operand.
pub open spec fn unop_result(op: UnaryOp, line: u64, v: Val) -> Result<Val, ErrV> {
    match op {
        UnaryOp::Minus => match v {
            Val::Num(b) => Result::Ok(Val::Num(neg_bits(b))),
            _ => Result::Err(ErrV::Fail { msg: "Operand must be a number."@, line }),
        },
        UnaryOp::Bang => Result::Ok(Val::Bool(!truthy(v))),
    }
}

/// What a binary operator yields on two evaluated operands, both fully
/// evaluated before dispatch.
pub open spec fn binop_result(op: BinaryOp, line: u64, a: Val, b: Val) -> Result<Val, ErrV> {
    match op {
        BinaryOp::Plus => match (a, b) {
            (Val::Num(x), Val::Num(y)) => Result::Ok(Val::Num(add_bits(x, y))),
            (Val::Str(x), Val::Str(y)) => Result::Ok(Val::Str(x + y)),
            _ => Result::Err(
                ErrV::Fail { msg: "Operands must be two numbers or two strings."@, line },
            ),
        },
        BinaryOp::Minus => match (a, b) {
            (Val::Num(x), Val::Num(y)) => Result::Ok(Val::Num(sub_bits(x, y))),
            _ => Result::Err(ErrV::Fail { msg: "Operands must be numbers."@, line }),
        },
        BinaryOp::Star => match (a, b) {
            (Val::Num(x), Val::Num(y)) => Result::Ok(Val::Num(mul_bits(x, y))),
            _ => Result::Err(ErrV::Fail { msg: "Operands must be numbers."@, line }),
        },
        BinaryOp::Slash => match (a, b) {
            (Val::Num(x), Val::Num(y)) => if is_zero_bits(y) {
                Result::Err(ErrV::Fail { msg: "Division by zero."@, line })
            } else {
                Result::Ok(Val::Num(div_bits(x, y)))
            },
            _ => Result::Err(ErrV::Fail { msg: "Operands must be numbers."@, line }),
        },
        BinaryOp::Greater => match (a, b) {
            (Val::Num(x), Val::Num(y)) => Result::Ok(Val::Bool(lt_bits(y, x))),
            _ => Result::Err(ErrV::Fail { msg: "Operands must be numbers."@, line }),
        },
        BinaryOp::GreaterEqual => match (a, b) {
            (Val::Num(x), Val::Num(y)) => Result::Ok(Val::Bool(le_bits(y, x))),
            _ => Result::Err(ErrV::Fail { msg: "Operands must be numbers."@, line }),
        },
        BinaryOp::Less => match (a, b) {
            (Val::Num(x), Val::Num(y)) => Result::Ok(Val::Bool(lt_bits(x, y))),
            _ => Result::Err(ErrV::Fail { msg: "Operands must be numbers."@, line }),
        },
        BinaryOp::LessEqual => match (a, b) {
            (Val::Num(x), Val::Num(y)) => Result::Ok(Val::Bool(le_bits(x, y))),
            _ => Result::Err(ErrV::Fail { msg: "Operands must be numbers."@, line }),
        },
        BinaryOp::EqualEqual => Result::Ok(Val::Bool(vals_equal(a, b))),
        BinaryOp::BangEqual => Result::Ok(Val::Bool(!vals_equal(a, b))),
    }
}

/// Whether a logical operator short-circuits on its left value: `or` does
/// when the left is truthy, `and` when it is falsey. The left value is then
/// returned unchanged.
pub open spec fn short_circuits(op: LogicalOp, left: Val) -> bool {
    match op {
        LogicalOp::Or => truthy(left),
        LogicalOp::And => !truthy(left),
    }
}

pub open spec fn vals_v(vs: Seq<Value>) -> Seq<Val> {
    vs.map_values(|v: Value| v@)
}

/// The meaning of evaluating an expression in frame `cur` of state `st`.
pub open spec fn spec_eval(
    st: StateV,
    cur: int,
    e: Expr,
    locals: Seq<(u64, usize)>,
    fuel: nat,
) -> EOut
    decreases fuel, expr_height(e), 0nat,
{
    match e {
        Expr::Literal(l) => EOut { st, res: Result::Ok(lit_val(l)), dry: false },
        Expr::Grouping(inner) => spec_eval(st, cur, *inner, locals, fuel),
        Expr::Unary(op, line, operand) => {
            let o = spec_eval(st, cur, *operand, locals, fuel);
            if o.dry || o.res is Err {
                o
            } else {
                EOut { st: o.st, res: unop_result(op, line, o.res->Ok_0), dry: false }
            }
        },
        Expr::Binary(lhs, op, line, rhs) => {
            let o1 = spec_eval(st, cur, *lhs, locals, fuel);
            if o1.dry || o1.res is Err {
                o1
            } else {
                let o2 = spec_eval(o1.st, cur, *rhs, locals, fuel);
                if o2.dry || o2.res is Err {
                    o2
                } else {
                    EOut {
                        st: o2.st,
                        res: binop_result(op, line, o1.res->Ok_0, o2.res->Ok_0),
                        dry: false,
                    }
                }
            }
        },
        Expr::Logical(lhs, op, rhs) => {
            let o1 = spec_eval(st, cur, *lhs, locals, fuel);
            if o1.dry || o1.res is Err {
                o1
            } else if short_circuits(op, o1.res->Ok_0) {
                o1
            } else {
                spec_eval(o1.st, cur, *rhs, locals, fuel)
            }
        },
        Expr::Variable(tok, id) => {
            let looked = match depth_of(locals, id) {
                Option::Some(d) => get_at_spec(st.frames, cur, d as nat, tok.lexeme@),
                Option::None => chain_get(st.frames, 0, tok.lexeme@),
            };
            match looked {
                Option::Some(v) => EOut { st, res: Result::Ok(v), dry: false },
                Option::None => EOut {
                    st,
                    res: Result::Err(
                        ErrV::Fail { msg: crate::text::undef_text(tok.lexeme@), line: tok.line },
                    ),
                    dry: false,
                },
            }
        },
        Expr::Assign(tok, vexpr, id) => {
            let o1 = spec_eval(st, cur, *vexpr, locals, fuel);
            if o1.dry || o1.res is Err {
                o1
            } else {
                let v = o1.res->Ok_0;
                let updated = match depth_of(locals, id) {
                    Option::Some(d) => assign_at_spec(o1.st.frames, cur, d as nat, tok.lexeme@, v),
                    Option::None => chain_assign(o1.st.frames, 0, tok.lexeme@, v),
                };
                match updated {
                    Option::Some(fr) => EOut {
                        st: StateV { frames: fr, ..o1.st },
                        res: Result::Ok(v),
                        dry: false,
                    },
                    Option::None => EOut {
                        st: o1.st,
                        res: Result::Err(
                            ErrV::Fail {
                                msg: crate::text::undef_text(tok.lexeme@),
                                line: tok.line,
                            },
                        ),
                        dry: false,
                    },
                }
            }
        },
        Expr::Call(callee, pline, args) => {
            let o0 = spec_eval(st, cur, *callee, locals, fuel);
            if o0.dry || o0.res is Err {
                o0
            } else {
                let oa = spec_eval_args(o0.st, cur, args@, 0, locals, fuel);
                if oa.dry {
                    EOut { st: oa.st, res: Result::Ok(Val::Nil), dry: true }
                } else if oa.res is Err {
                    EOut { st: oa.st, res: Result::Err(oa.res->Err_0), dry: false }
                } else {
                    spec_call(oa.st, o0.res->Ok_0, oa.res->Ok_0, pline, locals, fuel)
                }
            }
        },
    }
}

/// The meaning of evaluating arguments `i..` of a call, left to right.
pub open spec fn spec_eval_args(
    st: StateV,
    cur: int,
    args: Seq<Expr>,
    i: int,
    locals: Seq<(u64, usize)>,
    fuel: nat,
) -> AOut
    decreases fuel, exprs_height(args), args.len() - i,
        via spec_eval_args_dec
{
    if i < 0 || i >= args.len() {
        AOut { st, res: Result::Ok(Seq::empty()), dry: false }
    } else {
        let o = spec_eval(st, cur, args[i], locals, fuel);
        if o.dry {
            AOut { st: o.st, res: Result::Ok(Seq::empty()), dry: true }
        } else {
            match o.res {
                Result::Err(e) => AOut { st: o.st, res: Result::Err(e), dry: false },
                Result::Ok(v) => {
                    let rest = spec_eval_args(o.st, cur, args, i + 1, locals, fuel);
                    if rest.dry {
                        rest
                    } else {
                        match rest.res {
                            Result::Err(e) => rest,
                            Result::Ok(vs) => AOut {
                                st: rest.st,
                                res: Result::Ok(seq![v] + vs),
                                dry: false,
                            },
                        }
                    }
                },
            }
        }
    }
}

/// The meaning of applying a callee to evaluated argument values at the
/// call's closing-paren line. A function body runs in a fresh frame whose
/// parent is the frame the function captured; a `return` signal from the
/// body becomes the call's value, and a body that completes normally
/// yields `nil`.
pub open spec fn spec_call(
    st: StateV,
    callee: Val,
    vals: Seq<Val>,
    pline: u64,
    locals: Seq<(u64, usize)>,
    fuel: nat,
) -> EOut
    decreases fuel, 0nat, 0nat,
{
    match callee {
        Val::Native(NativeFn::Clock) => {
            if vals.len() != 0 {
                EOut {
                    st,
                    res: Result::Err(
                        ErrV::Fail { msg: arity_text(0, vals.len()), line: pline },
                    ),
                    dry: false,
                }
            } else if st.ticks.len() > 0 {
                EOut {
                    st: StateV { ticks: st.ticks.drop_last(), ..st },
                    res: Result::Ok(Val::Num(st.ticks.last())),
                    dry: false,
                }
            } else {
                EOut { st, res: Result::Ok(Val::Num(POS_ZERO_BITS)), dry: true }
            }
        },
        Val::Fun { name, params, body, closure } => {
            if vals.len() != params.len() {
                EOut {
                    st,
                    res: Result::Err(
                        ErrV::Fail { msg: arity_text(params.len(), vals.len()), line: pline },
                    ),
                    dry: false,
                }
            } else if fuel == 0 {
                EOut {
                    st,
                    res: Result::Err(ErrV::Fail { msg: "Stack overflow."@, line: pline }),
                    dry: false,
                }
            } else {
                let nf = FrameV {
                    parent: Option::Some(closure),
                    binds: Seq::new(params.len(), |k: int| (params[k], vals[k])),
                };
                let newcur = st.frames.len() as int;
                let st1 = StateV { frames: st.frames.push(nf), ..st };
                let ob = spec_exec_stmts(st1, newcur, body, 0, false, locals, (fuel - 1) as nat);
                match ob.res {
                    Result::Ok(_) => EOut { st: ob.st, res: Result::Ok(Val::Nil), dry: ob.dry },
                    Result::Err(ErrV::Ret(v)) => EOut { st: ob.st, res: Result::Ok(v), dry: ob.dry },
                    Result::Err(f) => EOut { st: ob.st, res: Result::Err(f), dry: ob.dry },
                }
            }
        },
        _ => EOut {
            st,
            res: Result::Err(ErrV::Fail { msg: "Can only call functions."@, line: pline }),
            dry: false,
        },
    }
}

/// The meaning of executing one statement in frame `cur`. When `pr` is
/// set, a bare expression statement prints its value; blocks clear it for
/// their children.
pub open spec fn spec_exec_stmt(
    st: StateV,
    cur: int,
    s: Stmt,
    pr: bool,
    locals: Seq<(u64, usize)>,
    fuel: nat,
) -> SOut
    decreases fuel, stmt_height(s), 0nat,
{
    match s {
        Stmt::Expression(e) => {
            let o = spec_eval(st, cur, e, locals, fuel);
            if o.dry {
                SOut { st: o.st, res: Result::Ok(()), dry: true }
            } else {
                match o.res {
                    Result::Err(er) => SOut { st: o.st, res: Result::Err(er), dry: false },
                    Result::Ok(v) => if pr {
                        SOut {
                            st: StateV { out: o.st.out.push(text_of(v)), ..o.st },
                            res: Result::Ok(()),
                            dry: false,
                        }
                    } else {
                        SOut { st: o.st, res: Result::Ok(()), dry: false }
                    },
                }
            }
        },
        Stmt::Print(e) => {
            let o = spec_eval(st, cur, e, locals, fuel);
            if o.dry {
                SOut { st: o.st, res: Result::Ok(()), dry: true }
            } else {
                match o.res {
                    Result::Err(er) => SOut { st: o.st, res: Result::Err(er), dry: false },
                    Result::Ok(v) => SOut {
                        st: StateV { out: o.st.out.push(text_of(v)), ..o.st },
                        res: Result::Ok(()),
                        dry: false,
                    },
                }
            }
        },
        Stmt::Var(tok, init) => {
            let o = match init {
                Option::Some(e) => spec_eval(st, cur, e, locals, fuel),
                Option::None => EOut { st, res: Result::Ok(Val::Nil), dry: false },
            };
            if o.dry {
                SOut { st: o.st, res: Result::Ok(()), dry: true }
            } else {
                match o.res {
                    Result::Err(er) => SOut { st: o.st, res: Result::Err(er), dry: false },
                    Result::Ok(v) => SOut {
                        st: StateV {
                            frames: define_in(o.st.frames, cur, tok.lexeme@, v),
                            ..o.st
                        },
                        res: Result::Ok(()),
                        dry: false,
                    },
                }
            }
        },
        Stmt::Block(body) => {
            let newcur = st.frames.len() as int;
            let st1 = StateV {
                frames: st.frames.push(
                    FrameV { parent: Option::Some(cur), binds: Seq::empty() },
                ),
                ..st
            };
            spec_exec_stmts(st1, newcur, body@, 0, false, locals, fuel)
        },
        Stmt::If(cond, then_b, else_b) => {
            let o = spec_eval(st, cur, cond, locals, fuel);
            if o.dry {
                SOut { st: o.st, res: Result::Ok(()), dry: true }
            } else {
                match o.res {
                    Result::Err(er) => SOut { st: o.st, res: Result::Err(er), dry: false },
                    Result::Ok(v) => if truthy(v) {
                        spec_exec_stmt(o.st, cur, *then_b, pr, locals, fuel)
                    } else {
                        match else_b {
                            Option::Some(eb) => spec_exec_stmt(o.st, cur, *eb, pr, locals, fuel),
                            Option::None => SOut { st: o.st, res: Result::Ok(()), dry: false },
                        }
                    },
                }
            }
        },
        Stmt::While(cond, body) => {
            if fuel == 0 {
                SOut {
                    st,
                    res: Result::Err(ErrV::Fail { msg: "Stack overflow."@, line: 0 }),
                    dry: false,
                }
            } else {
                let o = spec_eval(st, cur, cond, locals, fuel);
                if o.dry {
                    SOut { st: o.st, res: Result::Ok(()), dry: true }
                } else {
                    match o.res {
                        Result::Err(er) => SOut { st: o.st, res: Result::Err(er), dry: false },
                        Result::Ok(v) => if !truthy(v) {
                            SOut { st: o.st, res: Result::Ok(()), dry: false }
                        } else {
                            let ob = spec_exec_stmt(o.st, cur, *body, pr, locals, fuel);
                            if ob.dry || ob.res is Err {
                                ob
                            } else {
                                spec_exec_stmt(ob.st, cur, s, pr, locals, (fuel - 1) as nat)
                            }
                        },
                    }
                }
            }
        },
        Stmt::Function(tok, params, body) => {
            let fv = Val::Fun {
                name: tok.lexeme@,
                params: params@.map_values(|t: Token| t.lexeme@),
                body: body@,
                closure: cur,
            };
            SOut {
                st: StateV { frames: define_in(st.frames, cur, tok.lexeme@, fv), ..st },
                res: Result::Ok(()),
                dry: false,
            }
        },
        Stmt::Return(_tok, value) => {
            let o = match value {
                Option::Some(e) => spec_eval(st, cur, e, locals, fuel),
                Option::None => EOut { st, res: Result::Ok(Val::Nil), dry: false },
            };
            if o.dry {
                SOut { st: o.st, res: Result::Ok(()), dry: true }
            } else {
                match o.res {
                    Result::Err(er) => SOut { st: o.st, res: Result::Err(er), dry: false },
                    Result::Ok(v) => SOut {
                        st: o.st,
                        res: Result::Err(ErrV::Ret(v)),
                        dry: false,
                    },
                }
            }
        },
    }
}

/// Insert a binding into frame `cur` of the store.
pub open spec fn define_in(frames: Seq<FrameV>, cur: int, name: Seq<char>, v: Val) -> Seq<FrameV> {
    frames.update(
        cur,
        FrameV { parent: frames[cur].parent, binds: frames[cur].binds.push((name, v)) },
    )
}

/// The meaning of executing statements `i..` of a list, in order.
pub open spec fn spec_exec_stmts(
    st: StateV,
    cur: int,
    ss: Seq<Stmt>,
    i: int,
    pr: bool,
    locals: Seq<(u64, usize)>,
    fuel: nat,
) -> SOut
    decreases fuel, stmts_height(ss), ss.len() - i,
        via spec_exec_stmts_dec
{
    if i < 0 || i >= ss.len() {
        SOut { st, res: Result::Ok(()), dry: false }
    } else {
        let o = spec_exec_stmt(st, cur, ss[i], pr, locals, fuel);
        if o.dry || o.res is Err {
            o
        } else {
            spec_exec_stmts(o.st, cur, ss, i + 1, pr, locals, fuel)
        }
    }
}

#[via_fn]
proof fn spec_eval_args_dec(
    st: StateV,
    cur: int,
    args: Seq<Expr>,
    i: int,
    locals: Seq<(u64, usize)>,
    fuel: nat,
) {
    if 0 <= i < args.len() {
        lemma_exprs_height_elem(args, i);
    }
}

#[via_fn]
proof fn spec_exec_stmts_dec(
    st: StateV,
    cur: int,
    ss: Seq<Stmt>,
    i: int,
    pr: bool,
    locals: Seq<(u64, usize)>,
    fuel: nat,
) {
    if 0 <= i < ss.len() {
        lemma_stmts_height_elem(ss, i);
    }
}

/// The meaning of a whole program: its statements run in order against the
/// global frame.
pub open spec fn spec_run(
    st: StateV,
    prog: Seq<Stmt>,
    pr: bool,
    locals: Seq<(u64, usize)>,
    fuel: nat,
) -> SOut {
    spec_exec_stmts(st, 0, prog, 0, pr, locals, fuel)
}

/// The model of an expression result.
pub open spec fn res_v(r: Result<Value, RuntimeError>) -> Result<Val, ErrV> {
    match r {
        Result::Ok(v) => Result::Ok(v@),
        Result::Err(e) => Result::Err(e@),
    }
}

/// The model of a statement result.
pub open spec fn unit_res_v(r: Result<(), RuntimeError>) -> Result<(), ErrV> {
    match r {
        Result::Ok(_) => Result::Ok(()),
        Result::Err(e) => Result::Err(e@),
    }
}

/// Any value or return signal an evaluation hands back is well formed for
/// the store it leaves behind.
pub open spec fn res_val_wf(r: Result<Value, RuntimeError>, n: int) -> bool {
    match r {
        Result::Ok(v) => val_wf(v@, n),
        Result::Err(e) => match e@ {
            ErrV::Ret(v) => val_wf(v, n),
            _ => true,
        },
    }
}

pub open spec fn unit_res_val_wf(r: Result<(), RuntimeError>, n: int) -> bool {
    match r {
        Result::Ok(_) => true,
        Result::Err(e) => match e@ {
            ErrV::Ret(v) => val_wf(v, n),
            _ => true,
        },
    }
}

/// The comparison operators on two evaluated operands: both must be
/// numbers; the failure carries the operator's line.
pub fn compare_values(left: &Value, right: &Value, op: BinaryOp, line: u64) -> (r: Result<
    Value,
    RuntimeError,
>)
    requires
        op == BinaryOp::Greater || op == BinaryOp::GreaterEqual || op == BinaryOp::Less || op
            == BinaryOp::LessEqual,
    ensures
        res_v(r) == binop_result(op, line, left@, right@),
        r is Ok ==> !(r->Ok_0@ is Fun),
{
    match (left, right) {
        (Value::Number(x), Value::Number(y)) => {
            let b = match op {
                BinaryOp::Greater => num_lt(*y, *x),
                BinaryOp::GreaterEqual => num_le(*y, *x),
                BinaryOp::Less => num_lt(*x, *y),
                _ => num_le(*x, *y),
            };
            Ok(Value::Boolean(b))
        },
        _ => Err(
            RuntimeError::new(
                <String as StringExecFns>::from_str("Operands must be numbers."),
                line,
            ),
        ),
    }
}

/// Dispatch of a binary operator over two fully evaluated operands.
pub fn apply_binary(op: BinaryOp, line: u64, left: &Value, right: &Value) -> (r: Result<
    Value,
    RuntimeError,
>)
    ensures
        res_v(r) == binop_result(op, line, left@, right@),
        r is Ok ==> !(r->Ok_0@ is Fun),
{
    match op {
        BinaryOp::Plus => {
            match (left, right) {
                (Value::Number(x), Value::Number(y)) => Ok(Value::Number(num_add(*x, *y))),
                (Value::String(x), Value::String(y)) => {
                    let s = x.clone().concat(y.as_str());
                    Ok(Value::String(s))
                },
                _ => Err(
                    RuntimeError::new(
                        <String as StringExecFns>::from_str(
                            "Operands must be two numbers or two strings.",
                        ),
                        line,
                    ),
                ),
            }
        },
        BinaryOp::Minus => {
            match (left, right) {
                (Value::Number(x), Value::Number(y)) => Ok(Value::Number(num_sub(*x, *y))),
                _ => Err(
                    RuntimeError::new(
                        <String as StringExecFns>::from_str("Operands must be numbers."),
                        line,
                    ),
                ),
            }
        },
        BinaryOp::Star => {
            match (left, right) {
                (Value::Number(x), Value::Number(y)) => Ok(Value::Number(num_mul(*x, *y))),
                _ => Err(
                    RuntimeError::new(
                        <String as StringExecFns>::from_str("Operands must be numbers."),
                        line,
                    ),
                ),
            }
        },
        BinaryOp::Slash => {
            match (left, right) {
                (Value::Number(x), Value::Number(y)) => {
                    if *y == POS_ZERO_BITS || *y == NEG_ZERO_BITS {
                        Err(
                            RuntimeError::new(
                                <String as StringExecFns>::from_str("Division by zero."),
                                line,
                            ),
                        )
                    } else {
                        Ok(Value::Number(num_div(*x, *y)))
                    }
                },
                _ => Err(
                    RuntimeError::new(
                        <String as StringExecFns>::from_str("Operands must be numbers."),
                        line,
                    ),
                ),
            }
        },
        BinaryOp::Greater => compare_values(left, right, op, line),
        BinaryOp::GreaterEqual => compare_values(left, right, op, line),
        BinaryOp::Less => compare_values(left, right, op, line),
        BinaryOp::LessEqual => compare_values(left, right, op, line),
        BinaryOp::EqualEqual => {
            let b = match compare_equality(left, right) {
                Ok(b) => b,
                Err(e) => {
                    return Err(e);
                },
            };
            Ok(Value::Boolean(b))
        },
        BinaryOp::BangEqual => {
            let b = match compare_equality(left, right) {
                Ok(b) => b,
                Err(e) => {
                    return Err(e);
                },
            };
            Ok(Value::Boolean(!b))
        },
    }
}

/// Evaluate an expression in frame `cur`. The outcome is exactly what
/// `spec_eval` says, for any run that does not fall back to the wall
/// clock; the store only ever grows, stays well formed, and any value
/// handed back is well formed for it.
#[verifier::loop_isolation(false)]
pub fn evaluate(
    expr: &Expr,
    cur: usize,
    locals: &Vec<(u64, usize)>,
    interp: &mut Interp,
    fuel: u64,
) -> (r: Result<Value, RuntimeError>)
    requires
        st_wf(old(interp)@),
        cur < old(interp)@.frames.len(),
    ensures
        st_wf(final(interp)@),
        old(interp)@.frames.len() <= final(interp)@.frames.len(),
        res_val_wf(r, final(interp)@.frames.len() as int),
        ({
            let o = spec_eval(old(interp)@, cur as int, *expr, locals@, fuel as nat);
            !o.dry ==> final(interp)@ == o.st && res_v(r) == o.res
        }),
    decreases fuel, expr_height(*expr), 1nat,
{
    match expr {
        Expr::Literal(l) => {
            match l {
                LiteralValue::Number(b) => Ok(Value::Number(*b)),
                LiteralValue::Str(s) => Ok(Value::String(s.clone())),
                LiteralValue::Boolean(b) => Ok(Value::Boolean(*b)),
                LiteralValue::Nil => Ok(Value::Nil),
            }
        },
        Expr::Grouping(inner) => evaluate(inner, cur, locals, interp, fuel),
        Expr::Unary(op, line, operand) => {
            let v = match evaluate(operand, cur, locals, interp, fuel) {
                Ok(v) => v,
                Err(e) => {
                    return Err(e);
                },
            };
            match op {
                UnaryOp::Minus => {
                    match v {
                        Value::Number(b) => Ok(Value::Number(num_neg(b))),
                        _ => Err(
                            RuntimeError::new(
                                <String as StringExecFns>::from_str("Operand must be a number."),
                                *line,
                            ),
                        ),
                    }
                },
                UnaryOp::Bang => Ok(Value::Boolean(!is_truthy(&v))),
            }
        },
        Expr::Binary(lhs, op, line, rhs) => {
            let lv = match evaluate(lhs, cur, locals, interp, fuel) {
                Ok(v) => v,
                Err(e) => {
                    return Err(e);
                },
            };
            let rv = match evaluate(rhs, cur, locals, interp, fuel) {
                Ok(v) => v,
                Err(e) => {
                    return Err(e);
                },
            };
            apply_binary(*op, *line, &lv, &rv)
        },
        Expr::Logical(lhs, op, rhs) => {
            let lv = match evaluate(lhs, cur, locals, interp, fuel) {
                Ok(v) => v,
                Err(e) => {
                    return Err(e);
                },
            };
            let stop = match op {
                LogicalOp::Or => is_truthy(&lv),
                LogicalOp::And => !is_truthy(&lv),
            };
            if stop {
                Ok(lv)
            } else {
                evaluate(rhs, cur, locals, interp, fuel)
            }
        },
        Expr::Variable(tok, id) => {
            match lookup_depth(locals, *id) {
                Some(d) => interp.env.get_at(cur, d, tok),
                None => interp.env.get(0, tok),
            }
        },
        Expr::Assign(tok, vexpr, id) => {
            let v = match evaluate(vexpr, cur, locals, interp, fuel) {
                Ok(v) => v,
                Err(e) => {
                    return Err(e);
                },
            };
            let stored = value_clone(&v);
            let assigned = match lookup_depth(locals, *id) {
                Some(d) => interp.env.assign_at(cur, d, tok, stored),
                None => interp.env.assign(0, tok, stored),
            };
            match assigned {
                Ok(_) => Ok(v),
                Err(e) => Err(e),
            }
        },
        Expr::Call(callee, pline, args) => {
            let cv = match evaluate(callee, cur, locals, interp, fuel) {
                Ok(v) => v,
                Err(e) => {
                    return Err(e);
                },
            };
            let ghost stc = interp@;
            let ghost oa = spec_eval_args(stc, cur as int, args@, 0, locals@, fuel as nat);
            let mut argv: Vec<Value> = Vec::new();
            let mut i: usize = 0;
            proof {
                assert(vals_v(argv@) =~= Seq::<Val>::empty());
                assert(args_append(vals_v(argv@), spec_eval_args(stc, cur as int, args@, 0, locals@, fuel as nat)) == oa) by {
                    let orest = spec_eval_args(stc, cur as int, args@, 0, locals@, fuel as nat);
                    if orest.res is Ok {
                        assert(Seq::<Val>::empty() + orest.res->Ok_0 =~= orest.res->Ok_0);
                    }
                };
            }
            while i < args.len()
                invariant
                    i <= args.len(),
                    st_wf(interp@),
                    cur < interp@.frames.len(),
                    stc.frames.len() <= interp@.frames.len(),
                    val_wf(cv@, stc.frames.len() as int),
                    argv@.len() == i,
                    forall|j: int|
                        0 <= j < i ==> val_wf(#[trigger] vals_v(argv@)[j], interp@.frames.len() as int),
                    oa.dry || oa == args_append(
                        vals_v(argv@),
                        spec_eval_args(interp@, cur as int, args@, i as int, locals@, fuel as nat),
                    ),
                decreases args@.len() - i,
            {
                let ghost pre = interp@;
                let ghost argv_pre = argv@;
                proof {
                    lemma_exprs_height_elem(args@, i as int);
                }
                let av = match evaluate(&args[i], cur, locals, interp, fuel) {
                    Ok(v) => v,
                    Err(e) => {
                        return Err(e);
                    },
                };
                argv.push(av);
                i += 1;
                proof {
                    assert(vals_v(argv@) =~= vals_v(argv_pre).push(vals_v(argv@).last()));
                    let onext = spec_eval_args(
                        interp@,
                        cur as int,
                        args@,
                        i as int,
                        locals@,
                        fuel as nat,
                    );
                    if !oa.dry && onext.res is Ok {
                        assert(vals_v(argv_pre) + (seq![av@] + onext.res->Ok_0) =~= vals_v(argv@)
                            + onext.res->Ok_0);
                    }
                }
            }
            proof {
                if !oa.dry {
                    let ofin = spec_eval_args(
                        interp@,
                        cur as int,
                        args@,
                        i as int,
                        locals@,
                        fuel as nat,
                    );
                    assert(vals_v(argv@) + ofin.res->Ok_0 =~= vals_v(argv@));
                }
            }
            call_value(cv, argv, *pline, cur, locals, interp, fuel)
        },
    }
}

/// Join already-collected argument values with the outcome of the
/// remaining ones.
pub open spec fn args_append(vs: Seq<Val>, o: AOut) -> AOut {
    AOut {
        st: o.st,
        res: match o.res {
            Result::Ok(rest) => Result::Ok(vs + rest),
            Result::Err(e) => Result::Err(e),
        },
        dry: o.dry,
    }
}

/// Apply an evaluated callee to evaluated argument values.
#[verifier::loop_isolation(false)]
fn call_value(
    cv: Value,
    argv: Vec<Value>,
    pline: u64,
    cur: usize,
    locals: &Vec<(u64, usize)>,
    interp: &mut Interp,
    fuel: u64,
) -> (r: Result<Value, RuntimeError>)
    requires
        st_wf(old(interp)@),
        cur < old(interp)@.frames.len(),
        val_wf(cv@, old(interp)@.frames.len() as int),
        forall|j: int|
            0 <= j < argv@.len() ==> val_wf(
                #[trigger] vals_v(argv@)[j],
                old(interp)@.frames.len() as int,
            ),
    ensures
        st_wf(final(interp)@),
        old(interp)@.frames.len() <= final(interp)@.frames.len(),
        res_val_wf(r, final(interp)@.frames.len() as int),
        ({
            let o = spec_call(old(interp)@, cv@, vals_v(argv@), pline, locals@, fuel as nat);
            !o.dry ==> final(interp)@ == o.st && res_v(r) == o.res
        }),
    decreases fuel, 0nat, 0nat,
{
    match cv {
        Value::NativeFunction(NativeFn::Clock) => {
            if argv.len() != 0 {
                Err(RuntimeError::new(arity_message(0, argv.len()), pline))
            } else {
                match interp.ticks.pop() {
                    Some(t) => Ok(Value::Number(t)),
                    None => {
                        let t = clock_now_bits();
                        Ok(Value::Number(t))
                    },
                }
            }
        },
        Value::Function(fname, params, body, closure) => {
            if argv.len() != params.len() {
                return Err(RuntimeError::new(arity_message(params.len(), argv.len()), pline));
            }
            if fuel == 0 {
                return Err(
                    RuntimeError::new(<String as StringExecFns>::from_str("Stack overflow."), pline),
                );
            }
            let ghost st0 = interp@;
            let ghost paramsv = params@.map_values(|t: Token| t.lexeme@);
            let ghost argvv = vals_v(argv@);
            let newcur = interp.env.new_with_enclosing(closure);
            let mut j: usize = 0;
            proof {
                assert(interp@.frames[newcur as int].binds =~= Seq::new(
                    0,
                    |k: int| (paramsv[k], argvv[k]),
                ));
                assert(interp@.frames =~= st0.frames.push(
                    FrameV {
                        parent: Option::Some(closure as int),
                        binds: Seq::new(0, |k: int| (paramsv[k], argvv[k])),
                    },
                ));
            }
            while j < params.len()
                invariant
                    j <= params.len(),
                    params@.len() == argv@.len(),
                    st_wf(interp@),
                    newcur == st0.frames.len(),
                    newcur < interp@.frames.len(),
                    paramsv == params@.map_values(|t: Token| t.lexeme@),
                    argvv == vals_v(argv@),
                    forall|k: int|
                        0 <= k < argv@.len() ==> val_wf(#[trigger] vals_v(argv@)[k], st0.frames.len() as int),
                    interp@ == (StateV {
                        frames: st0.frames.push(
                            FrameV {
                                parent: Option::Some(closure as int),
                                binds: Seq::new(j as nat, |k: int| (paramsv[k], argvv[k])),
                            },
                        ),
                        ..st0
                    }),
                decreases params@.len() - j,
            {
                let pname = params[j].lexeme.clone();
                let pval = value_clone(&argv[j]);
                let ghost pre = interp@;
                proof {
                    assert(pval@ == vals_v(argv@)[j as int]);
                    assert(val_wf(pval@, interp@.frames.len() as int));
                }
                interp.env.define(newcur, pname, pval);
                j += 1;
                proof {
                    assert(Seq::new(j as nat, |k: int| (paramsv[k], argvv[k])) =~= Seq::new(
                        (j - 1) as nat,
                        |k: int| (paramsv[k], argvv[k]),
                    ).push((paramsv[j - 1], argvv[j - 1])));
                    assert(interp@.frames =~= pre.frames.update(
                        newcur as int,
                        FrameV {
                            parent: pre.frames[newcur as int].parent,
                            binds: pre.frames[newcur as int].binds.push(
                                (paramsv[j - 1], argvv[j - 1]),
                            ),
                        },
                    ));
                    assert(interp@.frames =~= st0.frames.push(
                        FrameV {
                            parent: Option::Some(closure as int),
                            binds: Seq::new(j as nat, |k: int| (paramsv[k], argvv[k])),
                        },
                    ));
                }
            }
            let res = execute_block(&body, newcur, locals, interp, fuel - 1);
            match res {
                Ok(_) => Ok(Value::Nil),
                Err(e) => {
                    match e {
                        RuntimeError::Return(v) => Ok(v),
                        other => Err(other),
                    }
                },
            }
        },
        _ => Err(
            RuntimeError::new(<String as StringExecFns>::from_str("Can only call functions."), pline),
        ),
    }
}

/// Execute one statement in frame `cur`. When `print_expr_result` is set,
/// a bare expression statement prints its value; blocks clear it for
/// their children.
#[verifier::loop_isolation(false)]
pub fn execute_stmt(
    stmt: &Stmt,
    print_expr_result: bool,
    cur: usize,
    locals: &Vec<(u64, usize)>,
    interp: &mut Interp,
    fuel: u64,
) -> (r: Result<(), RuntimeError>)
    requires
        st_wf(old(interp)@),
        cur < old(interp)@.frames.len(),
    ensures
        st_wf(final(interp)@),
        old(interp)@.frames.len() <= final(interp)@.frames.len(),
        unit_res_val_wf(r, final(interp)@.frames.len() as int),
        ({
            let o = spec_exec_stmt(
                old(interp)@,
                cur as int,
                *stmt,
                print_expr_result,
                locals@,
                fuel as nat,
            );
            !o.dry ==> final(interp)@ == o.st && unit_res_v(r) == o.res
        }),
    decreases fuel, stmt_height(*stmt), 1nat,
{
    match stmt {
        Stmt::Expression(e) => {
            let v = match evaluate(e, cur, locals, interp, fuel) {
                Ok(v) => v,
                Err(er) => {
                    return Err(er);
                },
            };
            if print_expr_result {
                let ghost pre = interp@;
                let t = value_text(&v);
                interp.out.push(t);
                proof {
                    assert(interp@.out =~= pre.out.push(text_of(v@)));
                    assert(interp@.frames == pre.frames);
                    assert(interp@.ticks == pre.ticks);
                }
            }
            Ok(())
        },
        Stmt::Print(e) => {
            let v = match evaluate(e, cur, locals, interp, fuel) {
                Ok(v) => v,
                Err(er) => {
                    return Err(er);
                },
            };
            let ghost pre = interp@;
            let t = value_text(&v);
            interp.out.push(t);
            proof {
                assert(interp@.out =~= pre.out.push(text_of(v@)));
                assert(interp@.frames == pre.frames);
                assert(interp@.ticks == pre.ticks);
            }
            Ok(())
        },
        Stmt::Var(tok, init) => {
            let v = match init {
                Some(e) => {
                    match evaluate(e, cur, locals, interp, fuel) {
                        Ok(v) => v,
                        Err(er) => {
                            return Err(er);
                        },
                    }
                },
                None => Value::Nil,
            };
            let name = tok.lexeme.clone();
            let ghost pre = interp@;
            let ghost vv = v@;
            interp.env.define(cur, name, v);
            proof {
                assert(interp@.frames == define_in(pre.frames, cur as int, tok.lexeme@, vv));
                assert(interp@.out == pre.out);
                assert(interp@.ticks == pre.ticks);
            }
            Ok(())
        },
        Stmt::Block(body) => {
            let ghost pre = interp@;
            let newcur = interp.env.new_with_enclosing(cur);
            proof {
                assert(interp@.frames == pre.frames.push(
                    FrameV { parent: Option::Some(cur as int), binds: Seq::empty() },
                ));
                assert(interp@.out == pre.out);
                assert(interp@.ticks == pre.ticks);
            }
            execute_block(body, newcur, locals, interp, fuel)
        },
        Stmt::If(cond, then_b, else_b) => {
            let v = match evaluate(cond, cur, locals, interp, fuel) {
                Ok(v) => v,
                Err(er) => {
                    return Err(er);
                },
            };
            if is_truthy(&v) {
                execute_stmt(then_b, print_expr_result, cur, locals, interp, fuel)
            } else {
                match else_b {
                    Some(eb) => execute_stmt(eb, print_expr_result, cur, locals, interp, fuel),
                    None => Ok(()),
                }
            }
        },
        Stmt::While(cond, body) => {
            let mut f = fuel;
            loop
                invariant
                    st_wf(interp@),
                    cur < interp@.frames.len(),
                    old(interp)@.frames.len() <= interp@.frames.len(),
                    f <= fuel,
                    ({
                        let o0 = spec_exec_stmt(
                            old(interp)@,
                            cur as int,
                            *stmt,
                            print_expr_result,
                            locals@,
                            fuel as nat,
                        );
                        o0.dry || o0 == spec_exec_stmt(
                            interp@,
                            cur as int,
                            *stmt,
                            print_expr_result,
                            locals@,
                            f as nat,
                        )
                    }),
                decreases f,
            {
                if f == 0 {
                    return Err(
                        RuntimeError::new(<String as StringExecFns>::from_str("Stack overflow."), 0),
                    );
                }
                let v = match evaluate(cond, cur, locals, interp, f) {
                    Ok(v) => v,
                    Err(er) => {
                        return Err(er);
                    },
                };
                if !is_truthy(&v) {
                    return Ok(());
                }
                match execute_stmt(body, print_expr_result, cur, locals, interp, f) {
                    Ok(_) => {},
                    Err(er) => {
                        return Err(er);
                    },
                }
                f = f - 1;
            }
        },
        Stmt::Function(tok, params, body) => {
            let fval = Value::Function(tok.lexeme.clone(), rc_clone(params), rc_clone(body), cur);
            let name = tok.lexeme.clone();
            let ghost pre = interp@;
            let ghost fv = fval@;
            proof {
                assert(fv == (Val::Fun {
                    name: tok.lexeme@,
                    params: params@.map_values(|t: Token| t.lexeme@),
                    body: body@,
                    closure: cur as int,
                }));
            }
            interp.env.define(cur, name, fval);
            proof {
                assert(interp@.frames == define_in(pre.frames, cur as int, tok.lexeme@, fv));
                assert(interp@.out == pre.out);
                assert(interp@.ticks == pre.ticks);
            }
            Ok(())
        },
        Stmt::Return(_tok, value) => {
            let v = match value {
                Some(e) => {
                    match evaluate(e, cur, locals, interp, fuel) {
                        Ok(v) => v,
                        Err(er) => {
                            return Err(er);
                        },
                    }
                },
                None => Value::Nil,
            };
            Err(RuntimeError::Return(v))
        },
    }
}

/// Execute a statement list in order against frame `cur`, with no
/// expression echo.
#[verifier::loop_isolation(false)]
pub fn execute_block(
    statements: &Vec<Stmt>,
    cur: usize,
    locals: &Vec<(u64, usize)>,
    interp: &mut Interp,
    fuel: u64,
) -> (r: Result<(), RuntimeError>)
    requires
        st_wf(old(interp)@),
        cur < old(interp)@.frames.len(),
    ensures
        st_wf(final(interp)@),
        old(interp)@.frames.len() <= final(interp)@.frames.len(),
        unit_res_val_wf(r, final(interp)@.frames.len() as int),
        ({
            let o = spec_exec_stmts(
                old(interp)@,
                cur as int,
                statements@,
                0,
                false,
                locals@,
                fuel as nat,
            );
            !o.dry ==> final(interp)@ == o.st && unit_res_v(r) == o.res
        }),
    decreases fuel, stmts_height(statements@), 0nat,
{
    let ghost o0 = spec_exec_stmts(
        old(interp)@,
        cur as int,
        statements@,
        0,
        false,
        locals@,
        fuel as nat,
    );
    let mut i: usize = 0;
    while i < statements.len()
        invariant
            i <= statements.len(),
            st_wf(interp@),
            cur < interp@.frames.len(),
            old(interp)@.frames.len() <= interp@.frames.len(),
            o0 == spec_exec_stmts(
                old(interp)@,
                cur as int,
                statements@,
                0,
                false,
                locals@,
                fuel as nat,
            ),
            o0.dry || o0 == spec_exec_stmts(
                interp@,
                cur as int,
                statements@,
                i as int,
                false,
                locals@,
                fuel as nat,
            ),
        decreases statements@.len() - i,
    {
        proof {
            lemma_stmts_height_elem(statements@, i as int);
        }
        match execute_stmt(&statements[i], false, cur, locals, interp, fuel) {
            Ok(_) => {},
            Err(e) => {
                return Err(e);
            },
        }
        i += 1;
    }
    Ok(())
}

/// Run a program: its statements in order against the global frame. When
/// `print_expression_results` is set, bare expression statements at the
/// top level print their value.
#[verifier::loop_isolation(false)]
pub fn interpret(
    statements: &Vec<Stmt>,
    print_expression_results: bool,
    locals: &Vec<(u64, usize)>,
    interp: &mut Interp,
    fuel: u64,
) -> (r: Result<(), RuntimeError>)
    requires
        st_wf(old(interp)@),
    ensures
        st_wf(final(interp)@),
        ({
            let o = spec_run(old(interp)@, statements@, print_expression_results, locals@, fuel as nat);
            !o.dry ==> final(interp)@ == o.st && unit_res_v(r) == o.res
        }),
{
    let ghost o0 = spec_run(
        old(interp)@,
        statements@,
        print_expression_results,
        locals@,
        fuel as nat,
    );
    let mut i: usize = 0;
    while i < statements.len()
        invariant
            i <= statements.len(),
            st_wf(interp@),
            0 < interp@.frames.len(),
            o0 == spec_run(
                old(interp)@,
                statements@,
                print_expression_results,
                locals@,
                fuel as nat,
            ),
            o0.dry || o0 == spec_exec_stmts(
                interp@,
                0,
                statements@,
                i as int,
                print_expression_results,
                locals@,
                fuel as nat,
            ),
        decreases statements@.len() - i,
    {
        match execute_stmt(&statements[i], print_expression_results, 0, locals, interp, fuel) {
            Ok(_) => {},
            Err(e) => {
                return Err(e);
            },
        }
        i += 1;
    }
    Ok(())
}

} // verus!
