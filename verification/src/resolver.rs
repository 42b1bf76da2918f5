//! The static resolver: a pre-evaluation pass that binds every local
//! variable use to the depth of its declaring scope and reports the
//! language's static errors. Globals are intentionally left unresolved;
//! the evaluator looks them up by name in the root frame at runtime.
//!
//! Its meaning is pinned down by `spec_resolve_stmts` over a stack of
//! scopes, each a map from name to a flag that is false while the name's
//! initializer is being resolved; the executable pass is proved to match.

use vstd::prelude::*;
use crate::ast::{Expr, Stmt, Token};
use crate::ast::{expr_height, exprs_height, lemma_exprs_height_elem};

verus! {

/// Height of a statement as the resolver walks it: unlike evaluation, the
/// resolver descends into declared function bodies.
pub open spec fn res_stmt_height(s: Stmt) -> nat
    decreases s,
{
    match s {
        Stmt::Expression(e) => 1 + expr_height(e),
        Stmt::Print(e) => 1 + expr_height(e),
        Stmt::Var(_, init) => match init {
            Option::Some(e) => 1 + expr_height(e),
            Option::None => 1,
        },
        Stmt::Block(body) => 1 + res_stmts_height(body@),
        Stmt::If(c, t, e) => 1 + expr_height(c) + res_stmt_height(*t) + match e {
            Option::Some(x) => res_stmt_height(*x),
            Option::None => 0,
        },
        Stmt::While(c, b) => 1 + expr_height(c) + res_stmt_height(*b),
        Stmt::Function(_, _, body) => 1 + res_stmts_height(body@),
        Stmt::Return(_, v) => match v {
            Option::Some(e) => 1 + expr_height(e),
            Option::None => 1,
        },
    }
}

pub open spec fn res_stmts_height(ss: Seq<Stmt>) -> nat
    decreases ss,
{
    if ss.len() == 0 {
        0
    } else {
        1 + res_stmt_height(ss.first()) + res_stmts_height(ss.drop_first())
    }
}

pub proof fn lemma_res_stmts_height_elem(ss: Seq<Stmt>, i: int)
    requires
        0 <= i < ss.len(),
    ensures
        res_stmt_height(ss[i]) < res_stmts_height(ss),
    decreases ss.len(),
{
    if i == 0 {
    } else {
        lemma_res_stmts_height_elem(ss.drop_first(), i - 1);
        assert(ss.drop_first()[i - 1] == ss[i]);
    }
}

/// A static resolution error.
#[derive(Debug)]
pub struct ResolveError {
    pub message: String,
    pub line: u64,
}

/// The model of a static resolution error.
pub struct RErr {
    pub msg: Seq<char>,
    pub line: u64,
}

impl View for ResolveError {
    type V = RErr;

    open spec fn view(&self) -> RErr {
        RErr { msg: self.message@, line: self.line }
    }
}

/// The model of the resolver's state: the scope stack (innermost last,
/// each scope a list of name/flag entries, newest last), the side table
/// built so far, and whether a function body is being resolved.
pub struct RState {
    pub scopes: Seq<Seq<(Seq<char>, bool)>>,
    pub locals: Seq<(u64, usize)>,
    pub in_function: bool,
}

/// The flag of `name` in one scope: the newest entry under that name.
pub open spec fn scope_get(scope: Seq<(Seq<char>, bool)>, name: Seq<char>) -> Option<bool>
    decreases scope.len(),
{
    if scope.len() == 0 {
        Option::None
    } else if scope.last().0 == name {
        Option::Some(scope.last().1)
    } else {
        scope_get(scope.drop_last(), name)
    }
}

/// The depth of the innermost scope that knows `name`: 0 for the top of
/// the stack, counting outward; `None` when no scope does (a global).
pub open spec fn find_depth(scopes: Seq<Seq<(Seq<char>, bool)>>, name: Seq<char>) -> Option<usize>
    decreases scopes.len(),
{
    if scopes.len() == 0 {
        Option::None
    } else if scope_get(scopes.last(), name) is Some {
        Option::Some(0)
    } else {
        match find_depth(scopes.drop_last(), name) {
            Option::Some(d) => Option::Some((d + 1) as usize),
            Option::None => Option::None,
        }
    }
}

/// A recorded depth always points inside the stack.
pub proof fn lemma_find_depth_bound(scopes: Seq<Seq<(Seq<char>, bool)>>, name: Seq<char>)
    requires
        find_depth(scopes, name) is Some,
    ensures
        find_depth(scopes, name)->Some_0 < scopes.len(),
    decreases scopes.len(),
{
    if scope_get(scopes.last(), name) is Some {
    } else {
        lemma_find_depth_bound(scopes.drop_last(), name);
    }
}

/// Declare a name in the innermost scope with its flag false; an error if
/// that scope already has it. The global scope is not tracked.
pub open spec fn spec_declare(st: RState, name: Seq<char>, line: u64) -> Result<RState, RErr> {
    if st.scopes.len() == 0 {
        Result::Ok(st)
    } else if scope_get(st.scopes.last(), name) is Some {
        Result::Err(RErr { msg: "Already a variable with this name in this scope."@, line })
    } else {
        Result::Ok(
            RState {
                scopes: st.scopes.update(
                    st.scopes.len() - 1,
                    st.scopes.last().push((name, false)),
                ),
                ..st
            },
        )
    }
}

/// Mark a declared name fully defined in the innermost scope.
pub open spec fn spec_define(st: RState, name: Seq<char>) -> RState {
    if st.scopes.len() == 0 {
        st
    } else {
        RState {
            scopes: st.scopes.update(st.scopes.len() - 1, st.scopes.last().push((name, true))),
            ..st
        }
    }
}

/// Record the scope depth of a variable use, if any scope knows the name;
/// a use of an unknown name is a global, left unrecorded.
pub open spec fn spec_resolve_local(st: RState, id: u64, name: Seq<char>) -> RState {
    match find_depth(st.scopes, name) {
        Option::Some(d) => RState { locals: st.locals.push((id, d)), ..st },
        Option::None => st,
    }
}

/// Push a fresh innermost scope.
pub open spec fn push_scope(st: RState) -> RState {
    RState { scopes: st.scopes.push(Seq::empty()), ..st }
}

/// Drop the innermost scope.
pub open spec fn pop_scope(st: RState) -> RState {
    if st.scopes.len() > 0 {
        RState { scopes: st.scopes.drop_last(), ..st }
    } else {
        st
    }
}

/// Declare and define the parameters of a function, in order.
pub open spec fn spec_params(st: RState, params: Seq<Token>, i: int) -> Result<RState, RErr>
    decreases params.len() - i,
{
    if i < 0 || i >= params.len() {
        Result::Ok(st)
    } else {
        match spec_declare(st, params[i].lexeme@, params[i].line) {
            Result::Err(e) => Result::Err(e),
            Result::Ok(st1) => spec_params(
                spec_define(st1, params[i].lexeme@),
                params,
                i + 1,
            ),
        }
    }
}

/// The resolver's walk of one expression.
pub open spec fn spec_resolve_expr(st: RState, e: Expr) -> Result<RState, RErr>
    decreases expr_height(e), 0nat,
{
    match e {
        Expr::Literal(_) => Result::Ok(st),
        Expr::Grouping(inner) => spec_resolve_expr(st, *inner),
        Expr::Unary(_, _, inner) => spec_resolve_expr(st, *inner),
        Expr::Binary(l, _, _, r) => {
            match spec_resolve_expr(st, *l) {
                Result::Err(er) => Result::Err(er),
                Result::Ok(st1) => spec_resolve_expr(st1, *r),
            }
        },
        Expr::Logical(l, _, r) => {
            match spec_resolve_expr(st, *l) {
                Result::Err(er) => Result::Err(er),
                Result::Ok(st1) => spec_resolve_expr(st1, *r),
            }
        },
        Expr::Variable(tok, id) => {
            if st.scopes.len() > 0 && scope_get(st.scopes.last(), tok.lexeme@) == Option::Some(
                false,
            ) {
                Result::Err(
                    RErr {
                        msg: "Can't read local variable in its own initializer."@,
                        line: tok.line,
                    },
                )
            } else {
                Result::Ok(spec_resolve_local(st, id, tok.lexeme@))
            }
        },
        Expr::Assign(tok, vexpr, id) => {
            match spec_resolve_expr(st, *vexpr) {
                Result::Err(er) => Result::Err(er),
                Result::Ok(st1) => Result::Ok(spec_resolve_local(st1, id, tok.lexeme@)),
            }
        },
        Expr::Call(callee, _, args) => {
            match spec_resolve_expr(st, *callee) {
                Result::Err(er) => Result::Err(er),
                Result::Ok(st1) => spec_resolve_exprs(st1, args@, 0),
            }
        },
    }
}

pub open spec fn spec_resolve_exprs(st: RState, es: Seq<Expr>, i: int) -> Result<RState, RErr>
    decreases exprs_height(es), es.len() - i,
        via spec_resolve_exprs_dec
{
    if i < 0 || i >= es.len() {
        Result::Ok(st)
    } else {
        match spec_resolve_expr(st, es[i]) {
            Result::Err(er) => Result::Err(er),
            Result::Ok(st1) => spec_resolve_exprs(st1, es, i + 1),
        }
    }
}

#[via_fn]
proof fn spec_resolve_exprs_dec(st: RState, es: Seq<Expr>, i: int) {
    if 0 <= i < es.len() {
        lemma_exprs_height_elem(es, i);
    }
}

/// The resolver's walk of one statement.
pub open spec fn spec_resolve_stmt(st: RState, s: Stmt) -> Result<RState, RErr>
    decreases res_stmt_height(s), 0nat,
{
    match s {
        Stmt::Expression(e) => spec_resolve_expr(st, e),
        Stmt::Print(e) => spec_resolve_expr(st, e),
        Stmt::Var(tok, init) => {
            match spec_declare(st, tok.lexeme@, tok.line) {
                Result::Err(er) => Result::Err(er),
                Result::Ok(st1) => {
                    let after_init = match init {
                        Option::Some(e) => spec_resolve_expr(st1, e),
                        Option::None => Result::Ok(st1),
                    };
                    match after_init {
                        Result::Err(er) => Result::Err(er),
                        Result::Ok(st2) => Result::Ok(spec_define(st2, tok.lexeme@)),
                    }
                },
            }
        },
        Stmt::Block(body) => {
            match spec_resolve_stmts(push_scope(st), body@, 0) {
                Result::Err(er) => Result::Err(er),
                Result::Ok(st1) => Result::Ok(pop_scope(st1)),
            }
        },
        Stmt::If(cond, then_b, else_b) => {
            match spec_resolve_expr(st, cond) {
                Result::Err(er) => Result::Err(er),
                Result::Ok(st1) => match spec_resolve_stmt(st1, *then_b) {
                    Result::Err(er) => Result::Err(er),
                    Result::Ok(st2) => match else_b {
                        Option::Some(eb) => spec_resolve_stmt(st2, *eb),
                        Option::None => Result::Ok(st2),
                    },
                },
            }
        },
        Stmt::While(cond, body) => {
            match spec_resolve_expr(st, cond) {
                Result::Err(er) => Result::Err(er),
                Result::Ok(st1) => spec_resolve_stmt(st1, *body),
            }
        },
        Stmt::Function(tok, params, body) => {
            match spec_declare(st, tok.lexeme@, tok.line) {
                Result::Err(er) => Result::Err(er),
                Result::Ok(st1) => {
                    let st2 = spec_define(st1, tok.lexeme@);
                    let entered = RState { in_function: true, ..push_scope(st2) };
                    match spec_params(entered, params@, 0) {
                        Result::Err(er) => Result::Err(er),
                        Result::Ok(st3) => match spec_resolve_stmts(st3, body@, 0) {
                            Result::Err(er) => Result::Err(er),
                            Result::Ok(st4) => Result::Ok(
                                RState { in_function: st.in_function, ..pop_scope(st4) },
                            ),
                        },
                    }
                },
            }
        },
        Stmt::Return(tok, value) => {
            if !st.in_function {
                Result::Err(RErr { msg: "Can't return from top-level code."@, line: tok.line })
            } else {
                match value {
                    Option::Some(e) => spec_resolve_expr(st, e),
                    Option::None => Result::Ok(st),
                }
            }
        },
    }
}

pub open spec fn spec_resolve_stmts(st: RState, ss: Seq<Stmt>, i: int) -> Result<RState, RErr>
    decreases res_stmts_height(ss), ss.len() - i,
        via spec_resolve_stmts_dec
{
    if i < 0 || i >= ss.len() {
        Result::Ok(st)
    } else {
        match spec_resolve_stmt(st, ss[i]) {
            Result::Err(er) => Result::Err(er),
            Result::Ok(st1) => spec_resolve_stmts(st1, ss, i + 1),
        }
    }
}

#[via_fn]
proof fn spec_resolve_stmts_dec(st: RState, ss: Seq<Stmt>, i: int) {
    if 0 <= i < ss.len() {
        lemma_res_stmts_height_elem(ss, i);
    }
}

/// The state a fresh resolver starts in: no scopes (the global scope is
/// not tracked), an empty side table, top-level code.
pub open spec fn init_rstate() -> RState {
    RState { scopes: Seq::empty(), locals: Seq::empty(), in_function: false }
}

pub open spec fn scope_v(scope: Seq<(String, bool)>) -> Seq<(Seq<char>, bool)> {
    scope.map_values(|p: (String, bool)| (p.0@, p.1))
}

/// The static resolver.
pub struct Resolver {
    pub scopes: Vec<Vec<(String, bool)>>,
    pub locals: Vec<(u64, usize)>,
    pub in_function: bool,
}

impl View for Resolver {
    type V = RState;

    open spec fn view(&self) -> RState {
        RState {
            scopes: self.scopes@.map_values(|s: Vec<(String, bool)>| scope_v(s@)),
            locals: self.locals@,
            in_function: self.in_function,
        }
    }
}

/// The scan of one scope, newest entry first.
fn scope_lookup(scope: &Vec<(String, bool)>, name: &String) -> (r: Option<bool>)
    ensures
        r == scope_get(scope_v(scope@), name@),
{
    let ghost sv = scope_v(scope@);
    let mut i: usize = scope.len();
    proof {
        assert(sv.take(scope@.len() as int) =~= sv);
    }
    while i > 0
        invariant
            i <= scope.len(),
            sv == scope_v(scope@),
            scope_get(sv, name@) == scope_get(sv.take(i as int), name@),
        decreases i,
    {
        i = i - 1;
        proof {
            assert(sv[i as int] == (scope@[i as int].0@, scope@[i as int].1));
            assert(sv.take(i as int + 1).last() == sv[i as int]);
            assert(sv.take(i as int + 1).drop_last() =~= sv.take(i as int));
        }
        if scope[i].0 == *name {
            return Some(scope[i].1);
        }
    }
    proof {
        assert(sv.take(0) =~= Seq::<(Seq<char>, bool)>::empty());
    }
    None
}

impl Resolver {
    /// A fresh resolver: no scopes, an empty side table, top-level code.
    pub fn new() -> (r: Resolver)
        ensures
            r@ == init_rstate(),
    {
        let r = Resolver { scopes: Vec::new(), locals: Vec::new(), in_function: false };
        proof {
            assert(r@.scopes =~= init_rstate().scopes);
            assert(r@.locals =~= init_rstate().locals);
        }
        r
    }

    /// The side table built so far: expression id to scope depth.
    pub fn get_locals(&self) -> (r: &Vec<(u64, usize)>)
        ensures
            r@ == self@.locals,
    {
        &self.locals
    }

    /// Declare a name in the innermost scope; an error if that scope
    /// already has it.
    fn declare(&mut self, tok: &Token) -> (r: Result<(), ResolveError>)
        ensures
            match r {
                Result::Ok(_) => spec_declare(old(self)@, tok.lexeme@, tok.line) == Result::<
                    RState,
                    RErr,
                >::Ok(final(self)@),
                Result::Err(e) => {
                    &&& spec_declare(old(self)@, tok.lexeme@, tok.line) == Result::<
                        RState,
                        RErr,
                    >::Err(e@)
                    &&& final(self)@ == old(self)@
                },
            },
    {
        let n = self.scopes.len();
        if n == 0 {
            return Ok(());
        }
        match scope_lookup(&self.scopes[n - 1], &tok.lexeme) {
            Some(_) => Err(
                ResolveError {
                    message: <String as vstd::string::StringExecFns>::from_str(
                        "Already a variable with this name in this scope.",
                    ),
                    line: tok.line,
                },
            ),
            None => {
                let name = tok.lexeme.clone();
                let ghost pre = self@;
                self.scopes[n - 1].push((name, false));
                proof {
                    assert(self@.scopes =~~= pre.scopes.update(
                        pre.scopes.len() - 1,
                        pre.scopes.last().push((tok.lexeme@, false)),
                    ));
                }
                Ok(())
            },
        }
    }

    /// Mark a declared name fully defined in the innermost scope.
    fn define(&mut self, tok: &Token)
        ensures
            final(self)@ == spec_define(old(self)@, tok.lexeme@),
    {
        let n = self.scopes.len();
        if n == 0 {
            return ;
        }
        let name = tok.lexeme.clone();
        let ghost pre = self@;
        self.scopes[n - 1].push((name, true));
        proof {
            assert(self@.scopes =~~= pre.scopes.update(
                pre.scopes.len() - 1,
                pre.scopes.last().push((tok.lexeme@, true)),
            ));
        }
    }

    /// Record the depth of a variable use, when some scope knows the name.
    #[verifier::loop_isolation(false)]
    fn resolve_local(&mut self, id: u64, name: &String)
        ensures
            final(self)@ == spec_resolve_local(old(self)@, id, name@),
    {
        let ghost stv = self@.scopes;
        let mut j: usize = self.scopes.len();
        let mut k: usize = 0;
        proof {
            assert(stv.take(self.scopes@.len() as int) =~= stv);
        }
        while j > 0
            invariant
                j <= self.scopes.len(),
                k == self.scopes.len() - j,
                self@ == old(self)@,
                stv == self@.scopes,
                match find_depth(stv.take(j as int), name@) {
                    Option::Some(d) => find_depth(stv, name@) == Option::Some((d + k) as usize),
                    Option::None => find_depth(stv, name@) is None,
                },
            decreases j,
        {
            j = j - 1;
            proof {
                assert(stv.take(j as int + 1).last() == stv[j as int]);
                assert(stv.take(j as int + 1).drop_last() =~= stv.take(j as int));
                assert(stv[j as int] == scope_v(self.scopes@[j as int]@));
            }
            match scope_lookup(&self.scopes[j], name) {
                Some(_) => {
                    let ghost pre = self@;
                    self.locals.push((id, k));
                    proof {
                        assert(self@.locals =~= pre.locals.push((id, k)));
                        assert(self@.scopes =~~= pre.scopes);
                    }
                    return ;
                },
                None => {
                    proof {
                        if find_depth(stv.take(j as int), name@) is Some {
                            lemma_find_depth_bound(stv.take(j as int), name@);
                        }
                    }
                    k = k + 1;
                },
            }
        }
        proof {
            assert(stv.take(0) =~= Seq::<Seq<(Seq<char>, bool)>>::empty());
        }
    }

    /// Walk one expression, recording depths and reporting static errors.
    #[verifier::loop_isolation(false)]
    pub fn resolve_expr(&mut self, e: &Expr) -> (r: Result<(), ResolveError>)
        ensures
            match r {
                Result::Ok(_) => spec_resolve_expr(old(self)@, *e) == Result::<RState, RErr>::Ok(
                    final(self)@,
                ),
                Result::Err(er) => spec_resolve_expr(old(self)@, *e) == Result::<
                    RState,
                    RErr,
                >::Err(er@),
            },
        decreases expr_height(*e), 0nat,
    {
        match e {
            Expr::Literal(_) => Ok(()),
            Expr::Grouping(inner) => self.resolve_expr(inner),
            Expr::Unary(_, _, inner) => self.resolve_expr(inner),
            Expr::Binary(l, _, _, rr) => {
                match self.resolve_expr(l) {
                    Ok(_) => self.resolve_expr(rr),
                    Err(er) => Err(er),
                }
            },
            Expr::Logical(l, _, rr) => {
                match self.resolve_expr(l) {
                    Ok(_) => self.resolve_expr(rr),
                    Err(er) => Err(er),
                }
            },
            Expr::Variable(tok, id) => {
                let n = self.scopes.len();
                if n > 0 {
                    match scope_lookup(&self.scopes[n - 1], &tok.lexeme) {
                        Some(false) => {
                            return Err(
                                ResolveError {
                                    message: <String as vstd::string::StringExecFns>::from_str(
                                        "Can't read local variable in its own initializer.",
                                    ),
                                    line: tok.line,
                                },
                            );
                        },
                        _ => {},
                    }
                }
                self.resolve_local(*id, &tok.lexeme);
                Ok(())
            },
            Expr::Assign(tok, vexpr, id) => {
                match self.resolve_expr(vexpr) {
                    Ok(_) => {
                        self.resolve_local(*id, &tok.lexeme);
                        Ok(())
                    },
                    Err(er) => Err(er),
                }
            },
            Expr::Call(callee, _, args) => {
                match self.resolve_expr(callee) {
                    Ok(_) => {},
                    Err(er) => {
                        return Err(er);
                    },
                }
                let ghost st1 = self@;
                let mut i: usize = 0;
                while i < args.len()
                    invariant
                        i <= args.len(),
                        spec_resolve_exprs(st1, args@, 0) == spec_resolve_exprs(
                            self@,
                            args@,
                            i as int,
                        ),
                    decreases args@.len() - i,
                {
                    proof {
                        lemma_exprs_height_elem(args@, i as int);
                    }
                    match self.resolve_expr(&args[i]) {
                        Ok(_) => {},
                        Err(er) => {
                            return Err(er);
                        },
                    }
                    i += 1;
                }
                Ok(())
            },
        }
    }

    /// Walk one statement, recording depths and reporting static errors.
    #[verifier::loop_isolation(false)]
    pub fn resolve_stmt(&mut self, s: &Stmt) -> (r: Result<(), ResolveError>)
        ensures
            match r {
                Result::Ok(_) => spec_resolve_stmt(old(self)@, *s) == Result::<RState, RErr>::Ok(
                    final(self)@,
                ),
                Result::Err(er) => spec_resolve_stmt(old(self)@, *s) == Result::<
                    RState,
                    RErr,
                >::Err(er@),
            },
        decreases res_stmt_height(*s), 0nat,
    {
        match s {
            Stmt::Expression(e) => self.resolve_expr(e),
            Stmt::Print(e) => self.resolve_expr(e),
            Stmt::Var(tok, init) => {
                match self.declare(tok) {
                    Ok(_) => {},
                    Err(er) => {
                        return Err(er);
                    },
                }
                match init {
                    Some(e) => {
                        match self.resolve_expr(e) {
                            Ok(_) => {},
                            Err(er) => {
                                return Err(er);
                            },
                        }
                    },
                    None => {},
                }
                self.define(tok);
                Ok(())
            },
            Stmt::Block(body) => {
                let ghost pre = self@;
                self.scopes.push(Vec::new());
                proof {
                    assert(self@.scopes =~~= pre.scopes.push(Seq::empty()));
                }
                match self.resolve_stmts(body) {
                    Ok(_) => {},
                    Err(er) => {
                        return Err(er);
                    },
                }
                let ghost before_pop = self@;
                match self.scopes.pop() {
                    Some(_) => {
                        proof {
                            assert(self@.scopes =~~= before_pop.scopes.drop_last());
                        }
                    },
                    None => {},
                }
                Ok(())
            },
            Stmt::If(cond, then_b, else_b) => {
                match self.resolve_expr(cond) {
                    Ok(_) => {},
                    Err(er) => {
                        return Err(er);
                    },
                }
                match self.resolve_stmt(then_b) {
                    Ok(_) => {},
                    Err(er) => {
                        return Err(er);
                    },
                }
                match else_b {
                    Some(eb) => self.resolve_stmt(eb),
                    None => Ok(()),
                }
            },
            Stmt::While(cond, body) => {
                match self.resolve_expr(cond) {
                    Ok(_) => {},
                    Err(er) => {
                        return Err(er);
                    },
                }
                self.resolve_stmt(body)
            },
            Stmt::Function(tok, params, body) => {
                match self.declare(tok) {
                    Ok(_) => {},
                    Err(er) => {
                        return Err(er);
                    },
                }
                self.define(tok);
                let enclosing = self.in_function;
                let ghost pre = self@;
                self.scopes.push(Vec::new());
                self.in_function = true;
                proof {
                    assert(self@.scopes =~~= pre.scopes.push(Seq::empty()));
                    assert(self@ == (RState { in_function: true, ..push_scope(pre) }));
                }
                let ghost entered = self@;
                let mut i: usize = 0;
                while i < params.len()
                    invariant
                        i <= params@.len(),
                        spec_params(entered, params@, 0) == spec_params(self@, params@, i as int),
                    decreases params@.len() - i,
                {
                    match self.declare(&params[i]) {
                        Ok(_) => {},
                        Err(er) => {
                            return Err(er);
                        },
                    }
                    self.define(&params[i]);
                    i += 1;
                }
                match self.resolve_stmts(body) {
                    Ok(_) => {},
                    Err(er) => {
                        return Err(er);
                    },
                }
                let ghost before_pop = self@;
                match self.scopes.pop() {
                    Some(_) => {
                        proof {
                            assert(self@.scopes =~~= before_pop.scopes.drop_last());
                        }
                    },
                    None => {},
                }
                self.in_function = enclosing;
                Ok(())
            },
            Stmt::Return(tok, value) => {
                if !self.in_function {
                    return Err(
                        ResolveError {
                            message: <String as vstd::string::StringExecFns>::from_str(
                                "Can't return from top-level code.",
                            ),
                            line: tok.line,
                        },
                    );
                }
                match value {
                    Some(e) => self.resolve_expr(e),
                    None => Ok(()),
                }
            },
        }
    }

    /// Walk a statement list in order.
    #[verifier::loop_isolation(false)]
    pub fn resolve_stmts(&mut self, statements: &Vec<Stmt>) -> (r: Result<(), ResolveError>)
        ensures
            match r {
                Result::Ok(_) => spec_resolve_stmts(old(self)@, statements@, 0) == Result::<
                    RState,
                    RErr,
                >::Ok(final(self)@),
                Result::Err(er) => spec_resolve_stmts(old(self)@, statements@, 0) == Result::<
                    RState,
                    RErr,
                >::Err(er@),
            },
        decreases res_stmts_height(statements@), 1nat,
    {
        let ghost st0 = self@;
        let mut i: usize = 0;
        while i < statements.len()
            invariant
                i <= statements.len(),
                spec_resolve_stmts(st0, statements@, 0) == spec_resolve_stmts(
                    self@,
                    statements@,
                    i as int,
                ),
            decreases statements@.len() - i,
        {
            proof {
                lemma_res_stmts_height_elem(statements@, i as int);
            }
            match self.resolve_stmt(&statements[i]) {
                Ok(_) => {},
                Err(er) => {
                    return Err(er);
                },
            }
            i += 1;
        }
        Ok(())
    }

    /// Run the whole pass over a program.
    pub fn resolve(&mut self, statements: &Vec<Stmt>) -> (r: Result<(), ResolveError>)
        ensures
            match r {
                Result::Ok(_) => spec_resolve_stmts(old(self)@, statements@, 0) == Result::<
                    RState,
                    RErr,
                >::Ok(final(self)@),
                Result::Err(er) => spec_resolve_stmts(old(self)@, statements@, 0) == Result::<
                    RState,
                    RErr,
                >::Err(er@),
            },
    {
        self.resolve_stmts(statements)
    }
}

/// Resolve a whole program from a fresh resolver: the side table on
/// success, the first static error otherwise.
pub fn resolve_program(statements: &Vec<Stmt>) -> (r: Result<Vec<(u64, usize)>, ResolveError>)
    ensures
        match r {
            Result::Ok(locals) => {
                &&& spec_resolve_stmts(init_rstate(), statements@, 0) is Ok
                &&& locals@ == spec_resolve_stmts(init_rstate(), statements@, 0)->Ok_0.locals
            },
            Result::Err(er) => spec_resolve_stmts(init_rstate(), statements@, 0) == Result::<
                RState,
                RErr,
            >::Err(er@),
        },
{
    let mut resolver = Resolver::new();
    match resolver.resolve(statements) {
        Ok(_) => Ok(resolver.locals),
        Err(er) => Err(er),
    }
}

} // verus!
