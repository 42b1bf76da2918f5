//! The abstract syntax tree as the parser hands it over, together with
//! structural equality over it, defined as spec functions and mirrored by
//! executable comparisons.

use vstd::prelude::*;
use std::rc::Rc;

verus! {

/// A token as the parser delivers it: the lexeme text and the source line.
#[derive(Debug)]
pub struct Token {
    pub lexeme: String,
    pub line: u64,
}

#[derive(Clone, Copy, Debug, PartialEq, Eq, Structural)]
pub enum UnaryOp {
    Minus,
    Bang,
}

#[derive(Clone, Copy, Debug, PartialEq, Eq, Structural)]
pub enum BinaryOp {
    Plus,
    Minus,
    Star,
    Slash,
    Greater,
    GreaterEqual,
    Less,
    LessEqual,
    EqualEqual,
    BangEqual,
}

#[derive(Clone, Copy, Debug, PartialEq, Eq, Structural)]
pub enum LogicalOp {
    Or,
    And,
}

/// A literal as parsed. A number literal carries the raw bit pattern of the
/// IEEE-754 double it denotes.
#[derive(Debug)]
pub enum LiteralValue {
    Number(u64),
    Str(String),
    Boolean(bool),
    Nil,
}

/// An expression. Unary and binary nodes carry the source line of their
/// operator token, and a call carries the line of its closing parenthesis,
/// for error reporting. `Variable` and `Assign` carry a stable integer id,
/// assigned at parse time, that keys the resolver's side table.
#[derive(Debug)]
pub enum Expr {
    Literal(LiteralValue),
    Grouping(Box<Expr>),
    Unary(UnaryOp, u64, Box<Expr>),
    Binary(Box<Expr>, BinaryOp, u64, Box<Expr>),
    Logical(Box<Expr>, LogicalOp, Box<Expr>),
    Variable(Token, u64),
    Assign(Token, Box<Expr>, u64),
    Call(Box<Expr>, u64, Vec<Expr>),
}

/// A statement. A function declaration shares its parameter list and body
/// through `Rc`, so that a closure value can hold them without copying the
/// tree.
#[derive(Debug)]
pub enum Stmt {
    Expression(Expr),
    Print(Expr),
    Var(Token, Option<Expr>),
    Block(Vec<Stmt>),
    If(Expr, Box<Stmt>, Option<Box<Stmt>>),
    While(Expr, Box<Stmt>),
    Function(Token, Rc<Vec<Token>>, Rc<Vec<Stmt>>),
    Return(Token, Option<Expr>),
}

/// Height of an expression, the termination measure for everything that
/// walks the tree.
pub open spec fn expr_height(e: Expr) -> nat
    decreases e,
{
    match e {
        Expr::Literal(_) => 1,
        Expr::Grouping(inner) => 1 + expr_height(*inner),
        Expr::Unary(_, _, inner) => 1 + expr_height(*inner),
        Expr::Binary(l, _, _, r) => 1 + expr_height(*l) + expr_height(*r),
        Expr::Logical(l, _, r) => 1 + expr_height(*l) + expr_height(*r),
        Expr::Variable(_, _) => 1,
        Expr::Assign(_, v, _) => 1 + expr_height(*v),
        Expr::Call(c, _, args) => 1 + expr_height(*c) + exprs_height(args@),
    }
}

pub open spec fn exprs_height(es: Seq<Expr>) -> nat
    decreases es,
{
    if es.len() == 0 {
        0
    } else {
        1 + expr_height(es.first()) + exprs_height(es.drop_first())
    }
}

/// Height of a statement. A function declaration's body does not count:
/// it only ever runs through a call, which spends fuel.
pub open spec fn stmt_height(s: Stmt) -> nat
    decreases s,
{
    match s {
        Stmt::Expression(e) => 1 + expr_height(e),
        Stmt::Print(e) => 1 + expr_height(e),
        Stmt::Var(_, init) => match init {
            Option::Some(e) => 1 + expr_height(e),
            Option::None => 1,
        },
        Stmt::Block(body) => 1 + stmts_height(body@),
        Stmt::If(c, t, e) => 1 + expr_height(c) + stmt_height(*t) + match e {
            Option::Some(x) => stmt_height(*x),
            Option::None => 0,
        },
        Stmt::While(c, b) => 1 + expr_height(c) + stmt_height(*b),
        Stmt::Function(_, _, _) => 1,
        Stmt::Return(_, v) => match v {
            Option::Some(e) => 1 + expr_height(e),
            Option::None => 1,
        },
    }
}

pub open spec fn stmts_height(ss: Seq<Stmt>) -> nat
    decreases ss,
{
    if ss.len() == 0 {
        0
    } else {
        1 + stmt_height(ss.first()) + stmts_height(ss.drop_first())
    }
}

/// An element weighs less than its list.
pub proof fn lemma_exprs_height_elem(es: Seq<Expr>, i: int)
    requires
        0 <= i < es.len(),
    ensures
        expr_height(es[i]) < exprs_height(es),
    decreases es.len(),
{
    if i == 0 {
    } else {
        lemma_exprs_height_elem(es.drop_first(), i - 1);
        assert(es.drop_first()[i - 1] == es[i]);
    }
}

/// An element weighs less than its list.
pub proof fn lemma_stmts_height_elem(ss: Seq<Stmt>, i: int)
    requires
        0 <= i < ss.len(),
    ensures
        stmt_height(ss[i]) < stmts_height(ss),
    decreases ss.len(),
{
    if i == 0 {
    } else {
        lemma_stmts_height_elem(ss.drop_first(), i - 1);
        assert(ss.drop_first()[i - 1] == ss[i]);
    }
}

/// Structural equality of tokens: same lexeme text and same line.
pub open spec fn token_eq(a: Token, b: Token) -> bool {
    a.lexeme@ == b.lexeme@ && a.line == b.line
}

pub open spec fn lit_eq(a: LiteralValue, b: LiteralValue) -> bool {
    match (a, b) {
        (LiteralValue::Number(x), LiteralValue::Number(y)) => x == y,
        (LiteralValue::Str(x), LiteralValue::Str(y)) => x@ == y@,
        (LiteralValue::Boolean(x), LiteralValue::Boolean(y)) => x == y,
        (LiteralValue::Nil, LiteralValue::Nil) => true,
        _ => false,
    }
}

/// Structural equality of expressions, comparing text fields by their
/// character sequences.
pub open spec fn expr_eq(a: Expr, b: Expr) -> bool
    decreases a,
{
    match (a, b) {
        (Expr::Literal(x), Expr::Literal(y)) => lit_eq(x, y),
        (Expr::Grouping(x), Expr::Grouping(y)) => expr_eq(*x, *y),
        (Expr::Unary(o1, l1, e1), Expr::Unary(o2, l2, e2)) => {
            o1 == o2 && l1 == l2 && expr_eq(*e1, *e2)
        },
        (Expr::Binary(a1, o1, l1, b1), Expr::Binary(a2, o2, l2, b2)) => {
            o1 == o2 && l1 == l2 && expr_eq(*a1, *a2) && expr_eq(*b1, *b2)
        },
        (Expr::Logical(a1, o1, b1), Expr::Logical(a2, o2, b2)) => {
            o1 == o2 && expr_eq(*a1, *a2) && expr_eq(*b1, *b2)
        },
        (Expr::Variable(t1, i1), Expr::Variable(t2, i2)) => token_eq(t1, t2) && i1 == i2,
        (Expr::Assign(t1, e1, i1), Expr::Assign(t2, e2, i2)) => {
            token_eq(t1, t2) && expr_eq(*e1, *e2) && i1 == i2
        },
        (Expr::Call(c1, p1, a1), Expr::Call(c2, p2, a2)) => {
            expr_eq(*c1, *c2) && p1 == p2 && exprs_eq(a1@, a2@)
        },
        _ => false,
    }
}

pub open spec fn exprs_eq(a: Seq<Expr>, b: Seq<Expr>) -> bool
    decreases a,
{
    a.len() == b.len() && (forall|i: int| 0 <= i < a.len() ==> expr_eq(#[trigger] a[i], b[i]))
}

pub open spec fn tokens_eq(a: Seq<Token>, b: Seq<Token>) -> bool {
    a.len() == b.len() && (forall|i: int| 0 <= i < a.len() ==> token_eq(#[trigger] a[i], b[i]))
}

pub open spec fn opt_expr_eq(a: Option<Expr>, b: Option<Expr>) -> bool {
    match (a, b) {
        (Option::None, Option::None) => true,
        (Option::Some(x), Option::Some(y)) => expr_eq(x, y),
        _ => false,
    }
}

/// Structural equality of statements.
pub open spec fn stmt_eq(a: Stmt, b: Stmt) -> bool
    decreases a,
{
    match (a, b) {
        (Stmt::Expression(x), Stmt::Expression(y)) => expr_eq(x, y),
        (Stmt::Print(x), Stmt::Print(y)) => expr_eq(x, y),
        (Stmt::Var(t1, i1), Stmt::Var(t2, i2)) => token_eq(t1, t2) && opt_expr_eq(i1, i2),
        (Stmt::Block(x), Stmt::Block(y)) => stmts_eq(x@, y@),
        (Stmt::If(c1, t1, e1), Stmt::If(c2, t2, e2)) => {
            expr_eq(c1, c2) && stmt_eq(*t1, *t2) && match (e1, e2) {
                (Option::None, Option::None) => true,
                (Option::Some(x), Option::Some(y)) => stmt_eq(*x, *y),
                _ => false,
            }
        },
        (Stmt::While(c1, b1), Stmt::While(c2, b2)) => expr_eq(c1, c2) && stmt_eq(*b1, *b2),
        (Stmt::Function(t1, p1, b1), Stmt::Function(t2, p2, b2)) => {
            token_eq(t1, t2) && tokens_eq(p1@, p2@) && stmts_eq(b1@, b2@)
        },
        (Stmt::Return(t1, v1), Stmt::Return(t2, v2)) => token_eq(t1, t2) && opt_expr_eq(v1, v2),
        _ => false,
    }
}

pub open spec fn stmts_eq(a: Seq<Stmt>, b: Seq<Stmt>) -> bool
    decreases a,
{
    a.len() == b.len() && (forall|i: int| 0 <= i < a.len() ==> stmt_eq(#[trigger] a[i], b[i]))
}

} // verus!
