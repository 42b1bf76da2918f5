//! Canonical display text of values and error messages.
//!
//! Decimal rendering of integers is verified here against a recursive
//! character-sequence spec. A number prints as a plain integer whenever
//! its double value is integral and fits an `i64`; other doubles fall back
//! to the float library's decimal rendering.

use vstd::prelude::*;
use vstd::string::StringExecFns;
use crate::num::{int_of_bits, num_to_int, num_text_raw, real_text_of};
use crate::value::{ErrV, RuntimeError, Val, Value};

verus! {

pub open spec fn digit_seq(d: int) -> Seq<char> {
    if d == 0 {
        "0"@
    } else if d == 1 {
        "1"@
    } else if d == 2 {
        "2"@
    } else if d == 3 {
        "3"@
    } else if d == 4 {
        "4"@
    } else if d == 5 {
        "5"@
    } else if d == 6 {
        "6"@
    } else if d == 7 {
        "7"@
    } else if d == 8 {
        "8"@
    } else {
        "9"@
    }
}

/// The decimal digits of `n`, most significant first.
pub open spec fn dec_nat(n: nat) -> Seq<char>
    decreases n,
{
    if n < 10 {
        digit_seq(n as int)
    } else {
        dec_nat(n / 10) + digit_seq((n % 10) as int)
    }
}

/// The decimal text of an integer, with a leading minus sign if negative.
pub open spec fn int_text(i: int) -> Seq<char> {
    if i < 0 {
        "-"@ + dec_nat((-i) as nat)
    } else {
        dec_nat(i as nat)
    }
}

/// The display text of a number: integral doubles print as plain
/// integers, all others as the float library renders them.
pub open spec fn num_text(b: u64) -> Seq<char> {
    match int_of_bits(b) {
        Option::Some(i) => int_text(i as int),
        Option::None => real_text_of(b),
    }
}

/// The canonical display text of a value.
pub open spec fn text_of(v: Val) -> Seq<char> {
    match v {
        Val::Num(b) => num_text(b),
        Val::Str(s) => s,
        Val::Bool(b) => if b {
            "true"@
        } else {
            "false"@
        },
        Val::Nil => "nil"@,
        Val::Native(_) => "<native fn>"@,
        Val::Fun { name, .. } => "<fn "@ + name + ">"@,
    }
}

pub open spec fn undef_text(name: Seq<char>) -> Seq<char> {
    "Undefined variable '"@ + name + "'."@
}

pub open spec fn arity_text(expected: nat, got: nat) -> Seq<char> {
    "Expected "@ + dec_nat(expected) + " arguments but got "@ + dec_nat(got) + "."@
}

/// The single-line report of an error: `message [line N]`.
pub open spec fn report_text(e: ErrV) -> Seq<char> {
    match e {
        ErrV::Fail { msg, line } => msg + " [line "@ + dec_nat(line as nat) + "]"@,
        ErrV::Ret(_) => "Unexpected return."@,
    }
}

fn digit_str(d: u64) -> (r: String)
    requires
        d < 10,
    ensures
        r@ == digit_seq(d as int),
{
    match d {
        0 => <String as StringExecFns>::from_str("0"),
        1 => <String as StringExecFns>::from_str("1"),
        2 => <String as StringExecFns>::from_str("2"),
        3 => <String as StringExecFns>::from_str("3"),
        4 => <String as StringExecFns>::from_str("4"),
        5 => <String as StringExecFns>::from_str("5"),
        6 => <String as StringExecFns>::from_str("6"),
        7 => <String as StringExecFns>::from_str("7"),
        8 => <String as StringExecFns>::from_str("8"),
        _ => <String as StringExecFns>::from_str("9"),
    }
}

/// Decimal rendering of an unsigned integer.
pub fn dec_u64(n: u64) -> (r: String)
    ensures
        r@ == dec_nat(n as nat),
    decreases n,
{
    if n < 10 {
        digit_str(n)
    } else {
        let mut s = dec_u64(n / 10);
        let d = digit_str(n % 10);
        s.append(d.as_str());
        s
    }
}

/// Decimal rendering of a signed integer.
pub fn dec_i64(i: i64) -> (r: String)
    ensures
        r@ == int_text(i as int),
{
    if i >= 0 {
        dec_u64(i as u64)
    } else {
        let mag: u64 = ((-(i + 1)) as u64) + 1;
        proof {
            assert(mag as int == -(i as int));
        }
        let mut s = <String as StringExecFns>::from_str("-");
        let d = dec_u64(mag);
        s.append(d.as_str());
        s
    }
}

/// The canonical display text of a value, as `print` writes it.
pub fn value_text(v: &Value) -> (r: String)
    ensures
        r@ == text_of(v@),
{
    match v {
        Value::Number(b) => {
            match num_to_int(*b) {
                Option::Some(i) => dec_i64(i),
                Option::None => num_text_raw(*b),
            }
        },
        Value::String(s) => s.clone(),
        Value::Boolean(b) => {
            if *b {
                <String as StringExecFns>::from_str("true")
            } else {
                <String as StringExecFns>::from_str("false")
            }
        },
        Value::Nil => <String as StringExecFns>::from_str("nil"),
        Value::NativeFunction(_) => <String as StringExecFns>::from_str("<native fn>"),
        Value::Function(name, _, _, _) => {
            let mut s = <String as StringExecFns>::from_str("<fn ");
            s.append(name.as_str());
            s.append(">");
            s
        },
    }
}

/// The message of the name error for an unresolved variable.
pub fn undefined_variable_message(name: &String) -> (r: String)
    ensures
        r@ == undef_text(name@),
{
    let mut s = <String as StringExecFns>::from_str("Undefined variable '");
    s.append(name.as_str());
    s.append("'.");
    s
}

/// The message of the arity error for a call with the wrong argument count.
pub fn arity_message(expected: usize, got: usize) -> (r: String)
    ensures
        r@ == arity_text(expected as nat, got as nat),
{
    let mut s = <String as StringExecFns>::from_str("Expected ");
    let e = dec_u64(expected as u64);
    s.append(e.as_str());
    s.append(" arguments but got ");
    let g = dec_u64(got as u64);
    s.append(g.as_str());
    s.append(".");
    s
}

impl RuntimeError {
    /// The single-line report of this error, `message [line N]`, as the
    /// driver prints it before exiting. A return signal that reaches the
    /// top level is an implementation bug and reports as such.
    pub fn report(&self) -> (r: String)
        ensures
            r@ == report_text(self@),
    {
        match self {
            RuntimeError::Error { message, line } => {
                let mut s = message.clone();
                s.append(" [line ");
                let l = dec_u64(*line);
                s.append(l.as_str());
                s.append("]");
                s
            },
            RuntimeError::Return(_) => <String as StringExecFns>::from_str("Unexpected return."),
        }
    }
}

} // verus!
