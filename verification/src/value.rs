//! Runtime values, their mathematical model, truthiness, and the
//! language's equality.

use vstd::prelude::*;
use std::rc::Rc;
use crate::ast::{Expr, LiteralValue, Stmt, Token};
use crate::ast::{expr_eq, exprs_eq, lit_eq, stmt_eq, stmts_eq, token_eq, tokens_eq};
use crate::num::{approx_eq_bits, num_approx_eq};

verus! {

/// The host-provided callables. The set is closed: `clock` is the only one.
#[derive(Clone, Copy, Debug, PartialEq, Eq, Structural)]
pub enum NativeFn {
    Clock,
}

/// A runtime value. A number carries the raw bits of an IEEE-754 double.
/// A function value carries its name, parameter tokens, body, and the
/// index of the environment frame it captured at its declaration.
#[derive(Debug)]
pub enum Value {
    Number(u64),
    String(String),
    Boolean(bool),
    Nil,
    NativeFunction(NativeFn),
    Function(String, Rc<Vec<Token>>, Rc<Vec<Stmt>>, usize),
}

/// The mathematical model of a runtime value.
pub enum Val {
    Num(u64),
    Str(Seq<char>),
    Bool(bool),
    Nil,
    Native(NativeFn),
    Fun { name: Seq<char>, params: Seq<Seq<char>>, body: Seq<Stmt>, closure: int },
}

impl View for Value {
    type V = Val;

    open spec fn view(&self) -> Val {
        match self {
            Value::Number(b) => Val::Num(*b),
            Value::String(s) => Val::Str(s@),
            Value::Boolean(b) => Val::Bool(*b),
            Value::Nil => Val::Nil,
            Value::NativeFunction(n) => Val::Native(*n),
            Value::Function(name, params, body, closure) => Val::Fun {
                name: name@,
                params: params@.map_values(|t: Token| t.lexeme@),
                body: body@,
                closure: *closure as int,
            },
        }
    }
}

/// A value is well formed with respect to an environment of `n` frames when
/// any frame it captures actually exists.
pub open spec fn val_wf(v: Val, n: int) -> bool {
    match v {
        Val::Fun { closure, .. } => 0 <= closure < n,
        _ => true,
    }
}

/// A runtime failure, or the non-local signal that a `return` statement
/// raises and only a function call catches.
#[derive(Debug)]
pub enum RuntimeError {
    Error { message: String, line: u64 },
    Return(Value),
}

/// The mathematical model of an evaluation outcome's error side.
pub enum ErrV {
    Fail { msg: Seq<char>, line: u64 },
    Ret(Val),
}

impl View for RuntimeError {
    type V = ErrV;

    open spec fn view(&self) -> ErrV {
        match self {
            RuntimeError::Error { message, line } => ErrV::Fail { msg: message@, line: *line },
            RuntimeError::Return(v) => ErrV::Ret(v@),
        }
    }
}

impl RuntimeError {
    /// A runtime failure with the given message, at the given source line.
    pub fn new(message: String, line: u64) -> (r: Self)
        ensures
            r@ == (ErrV::Fail { msg: message@, line }),
    {
        RuntimeError::Error { message, line }
    }
}

/// `false` and `nil` are falsey; every other value is truthy.
pub open spec fn truthy(v: Val) -> bool {
    match v {
        Val::Bool(b) => b,
        Val::Nil => false,
        _ => true,
    }
}

pub fn is_truthy(value: &Value) -> (r: bool)
    ensures
        r == truthy(value@),
{
    match value {
        Value::Boolean(b) => *b,
        Value::Nil => false,
        _ => true,
    }
}

pub fn is_number(value: &Value) -> (r: bool)
    ensures
        r == (value@ is Num),
{
    matches!(value, Value::Number(_))
}

pub fn is_string(value: &Value) -> (r: bool)
    ensures
        r == (value@ is Str),
{
    matches!(value, Value::String(_))
}

/// The bits of a number value, or the unary type error. The caller
/// supplies the line of the operator it is checking for.
pub fn get_number(value: &Value, line: u64) -> (r: Result<u64, RuntimeError>)
    ensures
        match r {
            Result::Ok(b) => value@ == Val::Num(b),
            Result::Err(e) => !(value@ is Num) && e@ == (ErrV::Fail {
                msg: "Operand must be a number."@,
                line,
            }),
        },
{
    match value {
        Value::Number(n) => Ok(*n),
        _ => Err(
            RuntimeError::new(
                <String as vstd::string::StringExecFns>::from_str("Operand must be a number."),
                line,
            ),
        ),
    }
}

/// The language's equality: same-variant structural equality, with numbers
/// compared within the machine epsilon; values of different variants are
/// never equal.
pub open spec fn vals_equal(a: Val, b: Val) -> bool {
    match (a, b) {
        (Val::Num(x), Val::Num(y)) => approx_eq_bits(x, y),
        (Val::Str(x), Val::Str(y)) => x == y,
        (Val::Bool(x), Val::Bool(y)) => x == y,
        (Val::Nil, Val::Nil) => true,
        (Val::Native(x), Val::Native(y)) => x == y,
        (
            Val::Fun { name: n1, params: p1, body: b1, closure: c1 },
            Val::Fun { name: n2, params: p2, body: b2, closure: c2 },
        ) => n1 == n2 && p1 == p2 && stmts_eq(b1, b2) && c1 == c2,
        _ => false,
    }
}

/// An owned copy of a value. A function value shares its parameter list
/// and body, so this never copies an AST.
pub fn value_clone(v: &Value) -> (r: Value)
    ensures
        r@ == v@,
{
    match v {
        Value::Number(b) => Value::Number(*b),
        Value::String(s) => Value::String(s.clone()),
        Value::Boolean(b) => Value::Boolean(*b),
        Value::Nil => Value::Nil,
        Value::NativeFunction(n) => Value::NativeFunction(*n),
        Value::Function(name, params, body, closure) => Value::Function(
            name.clone(),
            rc_clone(params),
            rc_clone(body),
            *closure,
        ),
    }
}

/// Relies on `Rc::clone`: the clone is the same shared value.
#[verifier::external_body]
pub fn rc_clone<T>(r: &Rc<T>) -> (res: Rc<T>)
    ensures
        res == *r,
{
    Rc::clone(r)
}

pub fn lit_eq_exec(a: &LiteralValue, b: &LiteralValue) -> (r: bool)
    ensures
        r == lit_eq(*a, *b),
{
    match (a, b) {
        (LiteralValue::Number(x), LiteralValue::Number(y)) => *x == *y,
        (LiteralValue::Str(x), LiteralValue::Str(y)) => *x == *y,
        (LiteralValue::Boolean(x), LiteralValue::Boolean(y)) => *x == *y,
        (LiteralValue::Nil, LiteralValue::Nil) => true,
        _ => false,
    }
}

pub fn token_eq_exec(a: &Token, b: &Token) -> (r: bool)
    ensures
        r == token_eq(*a, *b),
{
    a.lexeme == b.lexeme && a.line == b.line
}

pub fn expr_eq_exec(a: &Expr, b: &Expr) -> (r: bool)
    ensures
        r == expr_eq(*a, *b),
    decreases *a,
{
    match (a, b) {
        (Expr::Literal(x), Expr::Literal(y)) => lit_eq_exec(x, y),
        (Expr::Grouping(x), Expr::Grouping(y)) => expr_eq_exec(x, y),
        (Expr::Unary(o1, l1, e1), Expr::Unary(o2, l2, e2)) => {
            *o1 == *o2 && *l1 == *l2 && expr_eq_exec(e1, e2)
        },
        (Expr::Binary(a1, o1, l1, b1), Expr::Binary(a2, o2, l2, b2)) => {
            *o1 == *o2 && *l1 == *l2 && expr_eq_exec(a1, a2) && expr_eq_exec(b1, b2)
        },
        (Expr::Logical(a1, o1, b1), Expr::Logical(a2, o2, b2)) => {
            *o1 == *o2 && expr_eq_exec(a1, a2) && expr_eq_exec(b1, b2)
        },
        (Expr::Variable(t1, i1), Expr::Variable(t2, i2)) => token_eq_exec(t1, t2) && *i1 == *i2,
        (Expr::Assign(t1, e1, i1), Expr::Assign(t2, e2, i2)) => {
            token_eq_exec(t1, t2) && expr_eq_exec(e1, e2) && *i1 == *i2
        },
        (Expr::Call(c1, p1, a1), Expr::Call(c2, p2, a2)) => {
            expr_eq_exec(c1, c2) && *p1 == *p2 && exprs_eq_exec(a1, a2)
        },
        _ => false,
    }
}

pub fn exprs_eq_exec(a: &Vec<Expr>, b: &Vec<Expr>) -> (r: bool)
    ensures
        r == exprs_eq(a@, b@),
    decreases a@,
{
    if a.len() != b.len() {
        return false;
    }
    let mut i: usize = 0;
    while i < a.len()
        invariant
            i <= a.len(),
            a.len() == b.len(),
            forall|j: int| 0 <= j < i ==> expr_eq(#[trigger] a@[j], b@[j]),
        decreases a@.len() - i,
    {
        if !expr_eq_exec(&a[i], &b[i]) {
            return false;
        }
        i += 1;
    }
    true
}

pub fn tokens_eq_exec(a: &Vec<Token>, b: &Vec<Token>) -> (r: bool)
    ensures
        r == tokens_eq(a@, b@),
{
    if a.len() != b.len() {
        return false;
    }
    let mut i: usize = 0;
    while i < a.len()
        invariant
            i <= a.len(),
            a.len() == b.len(),
            forall|j: int| 0 <= j < i ==> token_eq(#[trigger] a@[j], b@[j]),
        decreases a@.len() - i,
    {
        if !token_eq_exec(&a[i], &b[i]) {
            return false;
        }
        i += 1;
    }
    true
}

pub fn stmt_eq_exec(a: &Stmt, b: &Stmt) -> (r: bool)
    ensures
        r == stmt_eq(*a, *b),
    decreases *a,
{
    match (a, b) {
        (Stmt::Expression(x), Stmt::Expression(y)) => expr_eq_exec(x, y),
        (Stmt::Print(x), Stmt::Print(y)) => expr_eq_exec(x, y),
        (Stmt::Var(t1, i1), Stmt::Var(t2, i2)) => {
            token_eq_exec(t1, t2) && match (i1, i2) {
                (Option::None, Option::None) => true,
                (Option::Some(x), Option::Some(y)) => expr_eq_exec(x, y),
                _ => false,
            }
        },
        (Stmt::Block(x), Stmt::Block(y)) => stmts_eq_exec(x, y),
        (Stmt::If(c1, t1, e1), Stmt::If(c2, t2, e2)) => {
            expr_eq_exec(c1, c2) && stmt_eq_exec(t1, t2) && match (e1, e2) {
                (Option::None, Option::None) => true,
                (Option::Some(x), Option::Some(y)) => stmt_eq_exec(x, y),
                _ => false,
            }
        },
        (Stmt::While(c1, b1), Stmt::While(c2, b2)) => {
            expr_eq_exec(c1, c2) && stmt_eq_exec(b1, b2)
        },
        (Stmt::Function(t1, p1, b1), Stmt::Function(t2, p2, b2)) => {
            token_eq_exec(t1, t2) && tokens_eq_exec(p1, p2) && stmts_eq_exec(b1, b2)
        },
        (Stmt::Return(t1, v1), Stmt::Return(t2, v2)) => {
            token_eq_exec(t1, t2) && match (v1, v2) {
                (Option::None, Option::None) => true,
                (Option::Some(x), Option::Some(y)) => expr_eq_exec(x, y),
                _ => false,
            }
        },
        _ => false,
    }
}

pub fn stmts_eq_exec(a: &Vec<Stmt>, b: &Vec<Stmt>) -> (r: bool)
    ensures
        r == stmts_eq(a@, b@),
    decreases a@,
{
    if a.len() != b.len() {
        return false;
    }
    let mut i: usize = 0;
    while i < a.len()
        invariant
            i <= a.len(),
            a.len() == b.len(),
            forall|j: int| 0 <= j < i ==> stmt_eq(#[trigger] a@[j], b@[j]),
        decreases a@.len() - i,
    {
        if !stmt_eq_exec(&a[i], &b[i]) {
            return false;
        }
        i += 1;
    }
    true
}

/// Whether two parameter lists bind the same names in the same order.
pub fn params_eq_exec(p1: &Vec<Token>, p2: &Vec<Token>) -> (r: bool)
    ensures
        r == (p1@.map_values(|t: Token| t.lexeme@) == p2@.map_values(|t: Token| t.lexeme@)),
{
    let ghost m1 = p1@.map_values(|t: Token| t.lexeme@);
    let ghost m2 = p2@.map_values(|t: Token| t.lexeme@);
    if p1.len() != p2.len() {
        proof {
            assert(m1.len() != m2.len());
        }
        return false;
    }
    let mut i: usize = 0;
    while i < p1.len()
        invariant
            i <= p1.len(),
            p1@.len() == p2@.len(),
            m1 == p1@.map_values(|t: Token| t.lexeme@),
            m2 == p2@.map_values(|t: Token| t.lexeme@),
            forall|j: int| 0 <= j < i ==> #[trigger] m1[j] == m2[j],
        decreases p1@.len() - i,
    {
        if p1[i].lexeme != p2[i].lexeme {
            proof {
                assert(m1[i as int] != m2[i as int]);
            }
            return false;
        }
        i += 1;
    }
    proof {
        assert(m1 =~= m2);
    }
    true
}

/// The language's `==`, as the evaluator applies it. It never fails.
pub fn compare_equality(left: &Value, right: &Value) -> (r: Result<bool, RuntimeError>)
    ensures
        r == Result::<bool, RuntimeError>::Ok(vals_equal(left@, right@)),
{
    match (left, right) {
        (Value::Number(l), Value::Number(r)) => Ok(num_approx_eq(*l, *r)),
        (Value::String(l), Value::String(r)) => Ok(*l == *r),
        (Value::Boolean(l), Value::Boolean(r)) => Ok(*l == *r),
        (Value::Nil, Value::Nil) => Ok(true),
        (Value::NativeFunction(l), Value::NativeFunction(r)) => Ok(*l == *r),
        (Value::Function(n1, p1, b1, c1), Value::Function(n2, p2, b2, c2)) => {
            let r = *n1 == *n2 && params_eq_exec(p1, p2) && stmts_eq_exec(b1, b2) && *c1 == *c2;
            Ok(r)
        },
        _ => Ok(false),
    }
}

} // verus!
