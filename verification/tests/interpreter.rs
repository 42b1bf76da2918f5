//! End-to-end runs of small programs against the evaluator, built as ASTs
//! the way the parser would deliver them.

use lox_core::ast::{BinaryOp, Expr, LiteralValue, LogicalOp, Stmt, Token, UnaryOp};
use lox_core::interp::{interpret, Interp};
use lox_core::resolver::resolve_program;
use lox_core::value::RuntimeError;
use std::rc::Rc;

const FUEL: u64 = 100_000;

fn tok(name: &str, line: u64) -> Token {
    Token { lexeme: name.to_string(), line }
}

fn num(x: f64) -> Expr {
    Expr::Literal(LiteralValue::Number(x.to_bits()))
}

fn text(s: &str) -> Expr {
    Expr::Literal(LiteralValue::Str(s.to_string()))
}

fn boolean(b: bool) -> Expr {
    Expr::Literal(LiteralValue::Boolean(b))
}

fn nil() -> Expr {
    Expr::Literal(LiteralValue::Nil)
}

fn bin(l: Expr, op: BinaryOp, line: u64, r: Expr) -> Expr {
    Expr::Binary(Box::new(l), op, line, Box::new(r))
}

fn logical(l: Expr, op: LogicalOp, r: Expr) -> Expr {
    Expr::Logical(Box::new(l), op, Box::new(r))
}

fn var_use(name: &str, line: u64, id: u64) -> Expr {
    Expr::Variable(tok(name, line), id)
}

fn assign(name: &str, line: u64, value: Expr, id: u64) -> Expr {
    Expr::Assign(tok(name, line), Box::new(value), id)
}

fn call(callee: Expr, line: u64, args: Vec<Expr>) -> Expr {
    Expr::Call(Box::new(callee), line, args)
}

fn fun_stmt(name: &str, line: u64, params: Vec<&str>, body: Vec<Stmt>) -> Stmt {
    let ptoks: Vec<Token> = params.iter().map(|p| tok(p, line)).collect();
    Stmt::Function(tok(name, line), Rc::new(ptoks), Rc::new(body))
}

fn run(prog: &Vec<Stmt>) -> Result<Vec<String>, RuntimeError> {
    let locals = match resolve_program(prog) {
        Ok(l) => l,
        Err(e) => panic!("program did not resolve: {} [line {}]", e.message, e.line),
    };
    let mut interp = Interp::new();
    match interpret(prog, false, &locals, &mut interp, FUEL) {
        Ok(()) => Ok(interp.output().clone()),
        Err(e) => Err(e),
    }
}

fn run_ok(prog: Vec<Stmt>) -> Vec<String> {
    match run(&prog) {
        Ok(out) => out,
        Err(e) => panic!("runtime error: {}", e.report()),
    }
}

fn run_err(prog: Vec<Stmt>) -> String {
    match run(&prog) {
        Ok(out) => panic!("expected a runtime error, got output {:?}", out),
        Err(e) => e.report(),
    }
}

#[test]
fn addition_prints_sum() {
    // print 1 + 2;
    let prog = vec![Stmt::Print(bin(num(1.0), BinaryOp::Plus, 1, num(2.0)))];
    assert_eq!(run_ok(prog), vec!["3".to_string()]);
}

#[test]
fn block_shadowing() {
    // var a = 1; { var a = 2; print a; } print a;
    let prog = vec![
        Stmt::Var(tok("a", 1), Some(num(1.0))),
        Stmt::Block(vec![
            Stmt::Var(tok("a", 1), Some(num(2.0))),
            Stmt::Print(var_use("a", 1, 0)),
        ]),
        Stmt::Print(var_use("a", 1, 1)),
    ];
    assert_eq!(run_ok(prog), vec!["2".to_string(), "1".to_string()]);
}

#[test]
fn counter_closure() {
    // fun counter() { var n = 0; fun inc() { n = n + 1; return n; }
    //                 return inc; }
    // var c = counter(); print c(); print c(); print c();
    let inc_body = vec![
        Stmt::Expression(assign(
            "n",
            2,
            bin(var_use("n", 2, 0), BinaryOp::Plus, 2, num(1.0)),
            1,
        )),
        Stmt::Return(tok("return", 2), Some(var_use("n", 2, 2))),
    ];
    let counter_body = vec![
        Stmt::Var(tok("n", 1), Some(num(0.0))),
        fun_stmt("inc", 2, vec![], inc_body),
        Stmt::Return(tok("return", 3), Some(var_use("inc", 3, 3))),
    ];
    let prog = vec![
        fun_stmt("counter", 1, vec![], counter_body),
        Stmt::Var(tok("c", 4), Some(call(var_use("counter", 4, 4), 4, vec![]))),
        Stmt::Print(call(var_use("c", 5, 5), 5, vec![])),
        Stmt::Print(call(var_use("c", 6, 6), 6, vec![])),
        Stmt::Print(call(var_use("c", 7, 7), 7, vec![])),
    ];
    assert_eq!(run_ok(prog), vec!["1".to_string(), "2".to_string(), "3".to_string()]);
}

#[test]
fn string_concatenation() {
    // print "hi" + " " + "there";
    let prog = vec![Stmt::Print(bin(
        bin(text("hi"), BinaryOp::Plus, 1, text(" ")),
        BinaryOp::Plus,
        1,
        text("there"),
    ))];
    assert_eq!(run_ok(prog), vec!["hi there".to_string()]);
}

#[test]
fn while_loop_counts() {
    // var i = 0; while (i < 3) { print i; i = i + 1; }
    let prog = vec![
        Stmt::Var(tok("i", 1), Some(num(0.0))),
        Stmt::While(
            bin(var_use("i", 1, 0), BinaryOp::Less, 1, num(3.0)),
            Box::new(Stmt::Block(vec![
                Stmt::Print(var_use("i", 1, 1)),
                Stmt::Expression(assign(
                    "i",
                    1,
                    bin(var_use("i", 1, 2), BinaryOp::Plus, 1, num(1.0)),
                    3,
                )),
            ])),
        ),
    ];
    assert_eq!(run_ok(prog), vec!["0".to_string(), "1".to_string(), "2".to_string()]);
}

#[test]
fn logical_short_circuit_values() {
    // print nil or "fallback"; print "first" or "second";
    // print 0 and "zero-is-truthy";
    let prog = vec![
        Stmt::Print(logical(nil(), LogicalOp::Or, text("fallback"))),
        Stmt::Print(logical(text("first"), LogicalOp::Or, text("second"))),
        Stmt::Print(logical(num(0.0), LogicalOp::And, text("zero-is-truthy"))),
    ];
    assert_eq!(
        run_ok(prog),
        vec!["fallback".to_string(), "first".to_string(), "zero-is-truthy".to_string()]
    );
}

#[test]
fn plus_type_error() {
    // print 1 + "two";
    let prog = vec![Stmt::Print(bin(num(1.0), BinaryOp::Plus, 1, text("two")))];
    assert_eq!(run_err(prog), "Operands must be two numbers or two strings. [line 1]");
}

#[test]
fn undefined_variable_error() {
    // print x;
    let prog = vec![Stmt::Print(var_use("x", 1, 0))];
    assert_eq!(run_err(prog), "Undefined variable 'x'. [line 1]");
}

#[test]
fn division_by_zero_error() {
    // print 1 / 0;
    let prog = vec![Stmt::Print(bin(num(1.0), BinaryOp::Slash, 1, num(0.0)))];
    assert_eq!(run_err(prog), "Division by zero. [line 1]");
}

#[test]
fn arity_error_skips_body() {
    // fun f(a) { print "ran"; } f();
    let prog = vec![
        fun_stmt("f", 1, vec!["a"], vec![Stmt::Print(text("ran"))]),
        Stmt::Expression(call(var_use("f", 1, 0), 1, vec![])),
    ];
    assert_eq!(run_err(prog), "Expected 1 arguments but got 0. [line 1]");
}

#[test]
fn calling_a_number_fails() {
    // print 1();
    let prog = vec![Stmt::Print(call(num(1.0), 1, vec![]))];
    assert_eq!(run_err(prog), "Can only call functions. [line 1]");
}

#[test]
fn unary_minus_needs_number() {
    // print -"oops";
    let prog = vec![Stmt::Print(Expr::Unary(UnaryOp::Minus, 1, Box::new(text("oops"))))];
    assert_eq!(run_err(prog), "Operand must be a number. [line 1]");
}

#[test]
fn comparison_needs_numbers() {
    // print true < 1;
    let prog = vec![Stmt::Print(bin(boolean(true), BinaryOp::Less, 1, num(1.0)))];
    assert_eq!(run_err(prog), "Operands must be numbers. [line 1]");
}

#[test]
fn unary_negation_and_bang() {
    // print -(3); print !nil; print !0;
    let prog = vec![
        Stmt::Print(Expr::Unary(UnaryOp::Minus, 1, Box::new(num(3.0)))),
        Stmt::Print(Expr::Unary(UnaryOp::Bang, 1, Box::new(nil()))),
        Stmt::Print(Expr::Unary(UnaryOp::Bang, 1, Box::new(num(0.0)))),
    ];
    assert_eq!(
        run_ok(prog),
        vec!["-3".to_string(), "true".to_string(), "false".to_string()]
    );
}

#[test]
fn arithmetic_precedence_shapes() {
    // print 7 - 2 * 3; print (1 + 2) * 2; print 10 / 2;
    let prog = vec![
        Stmt::Print(bin(
            num(7.0),
            BinaryOp::Minus,
            1,
            bin(num(2.0), BinaryOp::Star, 1, num(3.0)),
        )),
        Stmt::Print(bin(
            Expr::Grouping(Box::new(bin(num(1.0), BinaryOp::Plus, 1, num(2.0)))),
            BinaryOp::Star,
            1,
            num(2.0),
        )),
        Stmt::Print(bin(num(10.0), BinaryOp::Slash, 1, num(2.0))),
    ];
    assert_eq!(run_ok(prog), vec!["1".to_string(), "6".to_string(), "5".to_string()]);
}

#[test]
fn equality_and_type_separation() {
    // print 1 == 1; print 1 == "1"; print nil == nil; print "a" != "b";
    let prog = vec![
        Stmt::Print(bin(num(1.0), BinaryOp::EqualEqual, 1, num(1.0))),
        Stmt::Print(bin(num(1.0), BinaryOp::EqualEqual, 1, text("1"))),
        Stmt::Print(bin(nil(), BinaryOp::EqualEqual, 1, nil())),
        Stmt::Print(bin(text("a"), BinaryOp::BangEqual, 1, text("b"))),
    ];
    assert_eq!(
        run_ok(prog),
        vec!["true".to_string(), "false".to_string(), "true".to_string(), "true".to_string()]
    );
}

#[test]
fn comparisons_on_numbers() {
    // print 1 < 2; print 2 <= 1; print 3 > 2; print 2 >= 3;
    let prog = vec![
        Stmt::Print(bin(num(1.0), BinaryOp::Less, 1, num(2.0))),
        Stmt::Print(bin(num(2.0), BinaryOp::LessEqual, 1, num(1.0))),
        Stmt::Print(bin(num(3.0), BinaryOp::Greater, 1, num(2.0))),
        Stmt::Print(bin(num(2.0), BinaryOp::GreaterEqual, 1, num(3.0))),
    ];
    assert_eq!(
        run_ok(prog),
        vec!["true".to_string(), "false".to_string(), "true".to_string(), "false".to_string()]
    );
}

#[test]
fn if_else_branches() {
    // if (false) print "a"; else print "b"; if (0) print "t";
    let prog = vec![
        Stmt::If(
            boolean(false),
            Box::new(Stmt::Print(text("a"))),
            Some(Box::new(Stmt::Print(text("b")))),
        ),
        Stmt::If(num(0.0), Box::new(Stmt::Print(text("t"))), None),
    ];
    assert_eq!(run_ok(prog), vec!["b".to_string(), "t".to_string()]);
}

#[test]
fn assignment_yields_value() {
    // var a = 1; print a = 2; print a;
    let prog = vec![
        Stmt::Var(tok("a", 1), Some(num(1.0))),
        Stmt::Print(assign("a", 1, num(2.0), 0)),
        Stmt::Print(var_use("a", 1, 1)),
    ];
    assert_eq!(run_ok(prog), vec!["2".to_string(), "2".to_string()]);
}

#[test]
fn return_unwinds_to_call_only() {
    // fun f() { return 1; print "no"; } print f(); print "after";
    let prog = vec![
        fun_stmt(
            "f",
            1,
            vec![],
            vec![
                Stmt::Return(tok("return", 1), Some(num(1.0))),
                Stmt::Print(text("no")),
            ],
        ),
        Stmt::Print(call(var_use("f", 2, 0), 2, vec![])),
        Stmt::Print(text("after")),
    ];
    assert_eq!(run_ok(prog), vec!["1".to_string(), "after".to_string()]);
}

#[test]
fn function_without_return_yields_nil() {
    // fun f() {} print f(); print f;
    let prog = vec![
        fun_stmt("f", 1, vec![], vec![]),
        Stmt::Print(call(var_use("f", 2, 0), 2, vec![])),
        Stmt::Print(var_use("f", 3, 1)),
    ];
    assert_eq!(run_ok(prog), vec!["nil".to_string(), "<fn f>".to_string()]);
}

#[test]
fn native_clock_prints_as_native() {
    // print clock;
    let prog = vec![Stmt::Print(var_use("clock", 1, 0))];
    assert_eq!(run_ok(prog), vec!["<native fn>".to_string()]);
}

#[test]
fn clock_uses_presupplied_reading() {
    // print clock(); with the reading 42 pre-supplied
    let prog = vec![Stmt::Print(call(var_use("clock", 1, 0), 1, vec![]))];
    let locals = resolve_program(&prog).expect("resolves");
    let mut interp = Interp::new();
    interp.push_tick((42.0f64).to_bits());
    interpret(&prog, false, &locals, &mut interp, FUEL).expect("runs");
    assert_eq!(interp.output().clone(), vec!["42".to_string()]);
}

#[test]
fn clock_wall_fallback_prints_a_number() {
    // print clock(); with nothing pre-supplied: the wall clock answers
    let prog = vec![Stmt::Print(call(var_use("clock", 1, 0), 1, vec![]))];
    let out = run_ok(prog);
    assert_eq!(out.len(), 1);
    assert!(out[0].chars().next().unwrap().is_ascii_digit());
}

#[test]
fn clock_arity_is_zero() {
    // clock(1);
    let prog = vec![Stmt::Expression(call(var_use("clock", 1, 0), 1, vec![num(1.0)]))];
    assert_eq!(run_err(prog), "Expected 0 arguments but got 1. [line 1]");
}

#[test]
fn deep_recursion_overflows() {
    // fun f() { return f(); } f(); with little fuel
    let prog = vec![
        fun_stmt(
            "f",
            1,
            vec![],
            vec![Stmt::Return(tok("return", 1), Some(call(var_use("f", 1, 0), 1, vec![])))],
        ),
        Stmt::Expression(call(var_use("f", 2, 1), 2, vec![])),
    ];
    let locals = resolve_program(&prog).expect("resolves");
    let mut interp = Interp::new();
    let r = interpret(&prog, false, &locals, &mut interp, 10);
    match r {
        Err(e) => assert_eq!(e.report(), "Stack overflow. [line 1]"),
        Ok(()) => panic!("expected stack overflow"),
    }
}

#[test]
fn closure_parameter_capture() {
    // fun make(base) { fun add(x) { return base + x; } return add; }
    // var plus2 = make(2); print plus2(3);
    let prog = vec![
        fun_stmt(
            "make",
            1,
            vec!["base"],
            vec![
                fun_stmt(
                    "add",
                    2,
                    vec!["x"],
                    vec![Stmt::Return(
                        tok("return", 2),
                        Some(bin(var_use("base", 2, 0), BinaryOp::Plus, 2, var_use("x", 2, 1))),
                    )],
                ),
                Stmt::Return(tok("return", 3), Some(var_use("add", 3, 2))),
            ],
        ),
        Stmt::Var(tok("plus2", 4), Some(call(var_use("make", 4, 3), 4, vec![num(2.0)]))),
        Stmt::Print(call(var_use("plus2", 5, 4), 5, vec![num(3.0)])),
    ];
    assert_eq!(run_ok(prog), vec!["5".to_string()]);
}

#[test]
fn expression_echo_at_top_level() {
    // the `evaluate` command echoes top-level expression statements
    let prog = vec![
        Stmt::Expression(bin(num(2.0), BinaryOp::Star, 1, num(3.0))),
        Stmt::Block(vec![Stmt::Expression(num(9.0))]),
    ];
    let locals = resolve_program(&prog).expect("resolves");
    let mut interp = Interp::new();
    interpret(&prog, true, &locals, &mut interp, FUEL).expect("runs");
    // the nested block's expression is not echoed
    assert_eq!(interp.output().clone(), vec!["6".to_string()]);
}

#[test]
fn resolver_rejects_self_initializer() {
    // { var a = a; }
    let prog = vec![Stmt::Block(vec![Stmt::Var(tok("a", 1), Some(var_use("a", 1, 0)))])];
    let e = resolve_program(&prog).expect_err("must be rejected");
    assert_eq!(e.message, "Can't read local variable in its own initializer.");
    assert_eq!(e.line, 1);
}

#[test]
fn resolver_rejects_duplicate_in_scope() {
    // { var a = 1; var a = 2; }
    let prog = vec![Stmt::Block(vec![
        Stmt::Var(tok("a", 1), Some(num(1.0))),
        Stmt::Var(tok("a", 2), Some(num(2.0))),
    ])];
    let e = resolve_program(&prog).expect_err("must be rejected");
    assert_eq!(e.message, "Already a variable with this name in this scope.");
    assert_eq!(e.line, 2);
}

#[test]
fn resolver_rejects_top_level_return() {
    // return 1;
    let prog = vec![Stmt::Return(tok("return", 3), Some(num(1.0)))];
    let e = resolve_program(&prog).expect_err("must be rejected");
    assert_eq!(e.message, "Can't return from top-level code.");
    assert_eq!(e.line, 3);
}

#[test]
fn global_redefinition_is_allowed() {
    // var a = 1; var a = 2; print a;  (the global scope is not tracked)
    let prog = vec![
        Stmt::Var(tok("a", 1), Some(num(1.0))),
        Stmt::Var(tok("a", 2), Some(num(2.0))),
        Stmt::Print(var_use("a", 3, 0)),
    ];
    assert_eq!(run_ok(prog), vec!["2".to_string()]);
}

#[test]
fn assignment_through_chain_not_a_definition() {
    // var a = 1; { a = 5; } print a;  and assigning an undefined name fails
    let prog = vec![
        Stmt::Var(tok("a", 1), Some(num(1.0))),
        Stmt::Block(vec![Stmt::Expression(assign("a", 2, num(5.0), 0))]),
        Stmt::Print(var_use("a", 3, 1)),
    ];
    assert_eq!(run_ok(prog), vec!["5".to_string()]);

    let bad = vec![Stmt::Expression(assign("ghostly", 7, num(1.0), 0))];
    assert_eq!(run_err(bad), "Undefined variable 'ghostly'. [line 7]");
}

#[test]
fn boolean_and_nil_display() {
    // print true; print false; print nil;
    let prog = vec![
        Stmt::Print(boolean(true)),
        Stmt::Print(boolean(false)),
        Stmt::Print(nil()),
    ];
    assert_eq!(
        run_ok(prog),
        vec!["true".to_string(), "false".to_string(), "nil".to_string()]
    );
}

#[test]
fn number_equality_uses_epsilon() {
    // print 0.1 + 0.2 == 0.3;  (true under the epsilon rule)
    let prog = vec![Stmt::Print(bin(
        bin(num(0.1), BinaryOp::Plus, 1, num(0.2)),
        BinaryOp::EqualEqual,
        1,
        num(0.3),
    ))];
    assert_eq!(run_ok(prog), vec!["true".to_string()]);
}

#[test]
fn large_integers_print_plainly() {
    // print 1000000 * 1000000;
    let prog = vec![Stmt::Print(bin(num(1.0e6), BinaryOp::Star, 1, num(1.0e6)))];
    assert_eq!(run_ok(prog), vec!["1000000000000".to_string()]);
}

#[test]
fn fractional_numbers_print_decimal() {
    // print 10 / 4;
    let prog = vec![Stmt::Print(bin(num(10.0), BinaryOp::Slash, 1, num(4.0)))];
    assert_eq!(run_ok(prog), vec!["2.5".to_string()]);
}

#[test]
fn negative_zero_division_is_an_error_too() {
    // print 1 / -0;
    let prog = vec![Stmt::Print(bin(
        num(1.0),
        BinaryOp::Slash,
        1,
        Expr::Unary(UnaryOp::Minus, 1, Box::new(num(0.0))),
    ))];
    assert_eq!(run_err(prog), "Division by zero. [line 1]");
}
