//! The guarantees the interpreter gives as a whole, proved from the
//! specification semantics: determinism, lexical scoping, closure
//! capture, short-circuit value preservation, equality laws, return
//! locality and arity strictness.

use vstd::prelude::*;
use crate::ast::{Expr, LogicalOp, Stmt, Token};
use crate::ast::{expr_eq, exprs_eq, stmt_eq, stmts_eq};
use crate::value::{ErrV, Val, truthy, vals_equal};
use crate::env::{FrameV, assoc_get, chain_assign, chain_get, get_at_spec};
use crate::interp::{
    EOut, StateV, depth_of, short_circuits, spec_call, spec_eval, spec_exec_stmt,
    spec_exec_stmts, spec_run,
};
use crate::text::arity_text;

verus! {

/// Determinism: the outcome of a run — every line printed, the result,
/// the final state — is a mathematical function of the starting state,
/// the program, the side table and the fuel. Two runs from equal starting
/// states are identical. (`interpret`'s contract pins each executable run
/// that never consults the wall clock to this function, so two such runs
/// produce byte-identical output.)
pub proof fn lemma_run_deterministic(
    st1: StateV,
    st2: StateV,
    prog: Seq<Stmt>,
    pr: bool,
    locals: Seq<(u64, usize)>,
    fuel: nat,
)
    requires
        st1 == st2,
    ensures
        spec_run(st1, prog, pr, locals, fuel) == spec_run(st2, prog, pr, locals, fuel),
{
}

/// Lexical scoping: a variable use for which the resolver recorded a
/// depth reads exactly the newest binding of that name in the frame that
/// many parent links up — the most recent assignment to that binding —
/// independent of the dynamic call stack; with no recorded depth it reads
/// the global frame. The state is untouched.
pub proof fn lemma_variable_reads_resolved_depth(
    st: StateV,
    cur: int,
    tok: Token,
    id: u64,
    locals: Seq<(u64, usize)>,
    fuel: nat,
)
    ensures
        ({
            let o = spec_eval(st, cur, Expr::Variable(tok, id), locals, fuel);
            let looked = match depth_of(locals, id) {
                Option::Some(d) => get_at_spec(st.frames, cur, d as nat, tok.lexeme@),
                Option::None => chain_get(st.frames, 0, tok.lexeme@),
            };
            &&& o.st == st
            &&& !o.dry
            &&& match looked {
                Option::Some(v) => o.res == Result::<Val, ErrV>::Ok(v),
                Option::None => o.res matches Result::Err(ErrV::Fail { .. }),
            }
        }),
{
}

/// The other half of lexical scoping: after an assignment through the
/// chain, a read from the same frame observes exactly the assigned value -
/// the most recent assignment to that binding wins.
pub proof fn lemma_assign_then_get(frames: Seq<FrameV>, i: int, name: Seq<char>, v: Val)
    requires
        chain_assign(frames, i, name, v) is Some,
    ensures
        chain_get(chain_assign(frames, i, name, v)->Some_0, i, name) == Option::Some(v),
    decreases i,
{
    let updated = chain_assign(frames, i, name, v)->Some_0;
    if assoc_get(frames[i].binds, name) is Some {
        assert(updated[i].binds.last() == (name, v));
        assert(chain_get(updated, i, name) == Option::Some(v)) by {
            reveal_with_fuel(chain_get, 2);
        }
    } else {
        let p = frames[i].parent->Some_0;
        lemma_assign_then_get(frames, p, name, v);
        lemma_chain_assign_frame_untouched(frames, p, name, v, i);
        assert(chain_assign(frames, p, name, v)->Some_0[i] == frames[i]);
        assert(chain_get(updated, i, name) == chain_get(updated, p, name)) by {
            reveal_with_fuel(chain_get, 2);
        }
    }
}

/// `chain_assign` rewrites only the one frame it targets: a frame whose
/// own lookup of the name misses is left untouched.
pub proof fn lemma_chain_assign_frame_untouched(
    frames: Seq<FrameV>,
    i: int,
    name: Seq<char>,
    v: Val,
    j: int,
)
    requires
        chain_assign(frames, i, name, v) is Some,
        0 <= j < frames.len(),
        assoc_get(frames[j].binds, name) is None,
    ensures
        chain_assign(frames, i, name, v)->Some_0.len() == frames.len(),
        chain_assign(frames, i, name, v)->Some_0[j] == frames[j],
    decreases i,
{
    if assoc_get(frames[i].binds, name) is Some {
        assert(i != j);
    } else {
        lemma_chain_assign_frame_untouched(frames, frames[i].parent->Some_0, name, v, j);
    }
}

/// Closure capture: declaring a function in frame `cur` stores a function
/// value that captures exactly that frame, and a later call — from any
/// frame whatsoever — runs the body in a fresh frame whose parent is the
/// captured frame, with the parameters bound to the argument values. The
/// body therefore reads and writes the same bindings it saw at its
/// creation point.
pub proof fn lemma_closure_captures_declaring_frame(
    st: StateV,
    cur: int,
    tok: Token,
    params: std::rc::Rc<Vec<Token>>,
    body: std::rc::Rc<Vec<Stmt>>,
    pr: bool,
    locals: Seq<(u64, usize)>,
    fuel: nat,
)
    ensures
        ({
            let o = spec_exec_stmt(st, cur, Stmt::Function(tok, params, body), pr, locals, fuel);
            let fv = Val::Fun {
                name: tok.lexeme@,
                params: params@.map_values(|t: Token| t.lexeme@),
                body: body@,
                closure: cur,
            };
            &&& o.res is Ok
            &&& !o.dry
            &&& o.st.frames == crate::interp::define_in(st.frames, cur, tok.lexeme@, fv)
        }),
{
}

/// The second half of closure capture: calling a function value runs its
/// body in a new frame whose parent is the frame the value captured, not
/// the caller's frame.
pub proof fn lemma_call_runs_in_captured_frame(
    st: StateV,
    f: Val,
    vals: Seq<Val>,
    pline: u64,
    locals: Seq<(u64, usize)>,
    fuel: nat,
)
    requires
        f is Fun,
        vals.len() == f->params.len(),
        fuel > 0,
    ensures
        ({
            let o = spec_call(st, f, vals, pline, locals, fuel);
            let entry = FrameV {
                parent: Option::Some(f->closure),
                binds: Seq::new(f->params.len(), |k: int| (f->params[k], vals[k])),
            };
            let ob = spec_exec_stmts(
                StateV { frames: st.frames.push(entry), ..st },
                st.frames.len() as int,
                f->body,
                0,
                false,
                locals,
                (fuel - 1) as nat,
            );
            o.st == ob.st && o.dry == ob.dry
        }),
{
}

/// Short-circuit value preservation: `a or b` evaluates `b` exactly when
/// `a` is falsey, and when it short-circuits the result is the left value
/// itself, uncoerced — symmetrically for `and`. Otherwise the right
/// operand's outcome, evaluated from the left's state, is the whole
/// outcome.
pub proof fn lemma_short_circuit(
    st: StateV,
    cur: int,
    e: Expr,
    locals: Seq<(u64, usize)>,
    fuel: nat,
)
    requires
        e is Logical,
    ensures
        ({
            let oa = spec_eval(st, cur, *e->Logical_0, locals, fuel);
            let o = spec_eval(st, cur, e, locals, fuel);
            (!oa.dry && oa.res is Ok) ==> {
                let v = oa.res->Ok_0;
                &&& short_circuits(e->Logical_1, v) ==> o == oa
                &&& !short_circuits(e->Logical_1, v) ==> o == spec_eval(
                    oa.st,
                    cur,
                    *e->Logical_2,
                    locals,
                    fuel,
                )
            }
        }),
{
}

/// `or` short-circuits exactly on a truthy left value, `and` exactly on a
/// falsey one.
pub proof fn lemma_short_circuit_condition(v: Val)
    ensures
        short_circuits(LogicalOp::Or, v) == truthy(v),
        short_circuits(LogicalOp::And, v) == !truthy(v),
{
}

pub proof fn lemma_expr_eq_refl(e: Expr)
    ensures
        expr_eq(e, e),
    decreases e,
{
    match e {
        Expr::Grouping(i) => lemma_expr_eq_refl(*i),
        Expr::Unary(_, _, i) => lemma_expr_eq_refl(*i),
        Expr::Binary(l, _, _, r) => {
            lemma_expr_eq_refl(*l);
            lemma_expr_eq_refl(*r);
        },
        Expr::Logical(l, _, r) => {
            lemma_expr_eq_refl(*l);
            lemma_expr_eq_refl(*r);
        },
        Expr::Assign(_, v, _) => lemma_expr_eq_refl(*v),
        Expr::Call(c, _, args) => {
            lemma_expr_eq_refl(*c);
            lemma_exprs_eq_refl(args@);
        },
        _ => {},
    }
}

pub proof fn lemma_exprs_eq_refl(es: Seq<Expr>)
    ensures
        exprs_eq(es, es),
    decreases es,
{
    assert forall|i: int| 0 <= i < es.len() implies expr_eq(#[trigger] es[i], es[i]) by {
        lemma_expr_eq_refl(es[i]);
    }
}

pub proof fn lemma_stmt_eq_refl(s: Stmt)
    ensures
        stmt_eq(s, s),
    decreases s,
{
    match s {
        Stmt::Expression(e) => lemma_expr_eq_refl(e),
        Stmt::Print(e) => lemma_expr_eq_refl(e),
        Stmt::Var(_, init) => {
            match init {
                Option::Some(e) => lemma_expr_eq_refl(e),
                Option::None => {},
            }
        },
        Stmt::Block(body) => lemma_stmts_eq_refl(body@),
        Stmt::If(c, t, els) => {
            lemma_expr_eq_refl(c);
            lemma_stmt_eq_refl(*t);
            match els {
                Option::Some(x) => lemma_stmt_eq_refl(*x),
                Option::None => {},
            }
        },
        Stmt::While(c, b) => {
            lemma_expr_eq_refl(c);
            lemma_stmt_eq_refl(*b);
        },
        Stmt::Function(_, _, body) => lemma_stmts_eq_refl(body@),
        Stmt::Return(_, v) => {
            match v {
                Option::Some(e) => lemma_expr_eq_refl(e),
                Option::None => {},
            }
        },
    }
}

pub proof fn lemma_stmts_eq_refl(ss: Seq<Stmt>)
    ensures
        stmts_eq(ss, ss),
    decreases ss,
{
    assert forall|i: int| 0 <= i < ss.len() implies stmt_eq(#[trigger] ss[i], ss[i]) by {
        lemma_stmt_eq_refl(ss[i]);
    }
}

/// Equality is reflexive on every value that is not a number. (Numeric
/// reflexivity is the epsilon comparison `|v - v| < epsilon` of IEEE-754
/// doubles, which lives outside the model; it holds at runtime for every
/// non-NaN double.)
pub proof fn lemma_eq_reflexive(v: Val)
    requires
        !(v is Num),
    ensures
        vals_equal(v, v),
{
    match v {
        Val::Fun { body, .. } => lemma_stmts_eq_refl(body),
        _ => {},
    }
}

/// Whether two values carry the same variant tag.
pub open spec fn same_variant(a: Val, b: Val) -> bool {
    match (a, b) {
        (Val::Num(_), Val::Num(_)) => true,
        (Val::Str(_), Val::Str(_)) => true,
        (Val::Bool(_), Val::Bool(_)) => true,
        (Val::Nil, Val::Nil) => true,
        (Val::Native(_), Val::Native(_)) => true,
        (Val::Fun { .. }, Val::Fun { .. }) => true,
        _ => false,
    }
}

/// Type separation: values of different variants are never equal.
pub proof fn lemma_eq_type_separation(a: Val, b: Val)
    requires
        !same_variant(a, b),
    ensures
        !vals_equal(a, b),
{
}

/// Return locality: when a function body raises the return signal, the
/// call that entered the body — and nothing else — catches it and yields
/// the returned value as its ordinary result; and a statement that
/// completes normally lets its successors run, so the caller continues
/// after the call.
pub proof fn lemma_return_locality(
    st: StateV,
    f: Val,
    vals: Seq<Val>,
    pline: u64,
    locals: Seq<(u64, usize)>,
    fuel: nat,
)
    requires
        f is Fun,
        vals.len() == f->params.len(),
        fuel > 0,
    ensures
        ({
            let entry = FrameV {
                parent: Option::Some(f->closure),
                binds: Seq::new(f->params.len(), |k: int| (f->params[k], vals[k])),
            };
            let ob = spec_exec_stmts(
                StateV { frames: st.frames.push(entry), ..st },
                st.frames.len() as int,
                f->body,
                0,
                false,
                locals,
                (fuel - 1) as nat,
            );
            let o = spec_call(st, f, vals, pline, locals, fuel);
            &&& (ob.res matches Result::Err(ErrV::Ret(v))) ==> o.res == Result::<Val, ErrV>::Ok(
                ob.res->Err_0->Ret_0,
            )
            &&& (ob.res is Ok) ==> o.res == Result::<Val, ErrV>::Ok(Val::Nil)
            &&& (ob.res matches Result::Err(ErrV::Fail { .. })) ==> o.res == Result::<
                Val,
                ErrV,
            >::Err(ob.res->Err_0)
        }),
{
}

/// A statement that completes normally does not disturb the statements
/// after it: the rest of the list runs from its state.
pub proof fn lemma_statements_continue(
    st: StateV,
    cur: int,
    ss: Seq<Stmt>,
    i: int,
    pr: bool,
    locals: Seq<(u64, usize)>,
    fuel: nat,
)
    requires
        0 <= i < ss.len(),
    ensures
        ({
            let o = spec_exec_stmt(st, cur, ss[i], pr, locals, fuel);
            (!o.dry && o.res is Ok) ==> spec_exec_stmts(st, cur, ss, i, pr, locals, fuel)
                == spec_exec_stmts(o.st, cur, ss, i + 1, pr, locals, fuel)
        }),
{
}

/// Arity strictness: a call whose argument count differs from the
/// callee's parameter count fails with the arity error at the call's
/// closing-paren line, and the body is not executed — the state is left
/// exactly as it stood after evaluating the callee and the arguments.
pub proof fn lemma_arity_strict(
    st: StateV,
    f: Val,
    vals: Seq<Val>,
    pline: u64,
    locals: Seq<(u64, usize)>,
    fuel: nat,
)
    requires
        f is Fun,
        vals.len() != f->params.len(),
    ensures
        spec_call(st, f, vals, pline, locals, fuel) == (EOut {
            st,
            res: Result::<Val, ErrV>::Err(
                ErrV::Fail { msg: arity_text(f->params.len(), vals.len()), line: pline },
            ),
            dry: false,
        }),
{
}

/// Arity strictness for the native `clock`: it takes no arguments, and a
/// call that passes any fails without touching the state or the clock.
pub proof fn lemma_native_arity_strict(
    st: StateV,
    f: Val,
    vals: Seq<Val>,
    pline: u64,
    locals: Seq<(u64, usize)>,
    fuel: nat,
)
    requires
        f is Native,
        vals.len() != 0,
    ensures
        spec_call(st, f, vals, pline, locals, fuel) == (EOut {
            st,
            res: Result::<Val, ErrV>::Err(
                ErrV::Fail { msg: arity_text(0, vals.len()), line: pline },
            ),
            dry: false,
        }),
{
}

} // verus!

