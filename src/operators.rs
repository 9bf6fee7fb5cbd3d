//! The binary operators and the coercions they apply to their operands.

use vstd::prelude::*;
use crate::ast::{Operator, Value};
use crate::error::{ErrorV, RSLogoError, result_view};
use crate::stack::Stack;
use crate::text::{int_of_text, parse_int, same_text, to_upper, upper_text, true_word, is_true_word};

verus! {

/// An operand read as an integer; a text that is not an integer is an
/// unexpected value, an unresolved variable a type mismatch.
pub open spec fn number_of(v: Value) -> Result<i32, ErrorV> {
    match v {
        Value::Number(n) => Ok(n),
        Value::String(s) => match int_of_text(s@) {
            Some(n) => Ok(n),
            None => Err(ErrorV::UnexpectedValue { expected: "a number"@, got: s@ }),
        },
        Value::Boolean(b) => Ok(if b { 1i32 } else { 0i32 }),
        Value::Variable(_) => Err(ErrorV::TypeMismatch),
    }
}

/// An operand read as a truth value: a text is true when it reads `TRUE` in
/// any case, a number when it is not zero.
pub open spec fn truth_of(v: Value) -> Result<bool, ErrorV> {
    match v {
        Value::Boolean(b) => Ok(b),
        Value::Number(n) => Ok(n != 0),
        Value::String(s) => Ok(upper_text(s@) == true_word()),
        Value::Variable(_) => Err(ErrorV::TypeMismatch),
    }
}

/// A 32-bit result, or `Overflow` when the exact value does not fit.
pub open spec fn checked(v: int) -> Result<Value, ErrorV> {
    if i32::MIN <= v <= i32::MAX {
        Ok(Value::Number(v as i32))
    } else {
        Err(ErrorV::Overflow)
    }
}

/// Division that rounds toward zero.
pub open spec fn trunc_div(a: int, b: int) -> int {
    let q = (if a < 0 { -a } else { a }) / (if b < 0 { -b } else { b });
    if (a < 0) != (b < 0) { -q } else { q }
}

/// Both operands as integers, the left one read first.
pub open spec fn numbers_of(l: Value, r: Value) -> Result<(i32, i32), ErrorV> {
    match number_of(l) {
        Err(e) => Err(e),
        Ok(a) => match number_of(r) {
            Err(e) => Err(e),
            Ok(b) => Ok((a, b)),
        },
    }
}

/// Both operands as truth values, the left one read first.
pub open spec fn truths_of(l: Value, r: Value) -> Result<(bool, bool), ErrorV> {
    match truth_of(l) {
        Err(e) => Err(e),
        Ok(a) => match truth_of(r) {
            Err(e) => Err(e),
            Ok(b) => Ok((a, b)),
        },
    }
}

/// `EQ`: numbers by value, texts without regard to case, truth values
/// directly, and a number against a text that reads as an integer.
pub open spec fn equal_of(l: Value, r: Value) -> Result<Value, ErrorV> {
    match (l, r) {
        (Value::Number(a), Value::Number(b)) => Ok(Value::Boolean(a == b)),
        (Value::String(a), Value::String(b)) => Ok(
            Value::Boolean(upper_text(a@) == upper_text(b@)),
        ),
        (Value::Boolean(a), Value::Boolean(b)) => Ok(Value::Boolean(a == b)),
        (Value::Number(a), Value::String(b)) => match int_of_text(b@) {
            Some(n) => Ok(Value::Boolean(a == n)),
            None => Err(ErrorV::TypeMismatch),
        },
        (Value::String(b), Value::Number(a)) => match int_of_text(b@) {
            Some(n) => Ok(Value::Boolean(a == n)),
            None => Err(ErrorV::TypeMismatch),
        },
        _ => Err(ErrorV::TypeMismatch),
    }
}

/// What an operator makes of its left and right operand.
pub open spec fn operate(op: Operator, l: Value, r: Value) -> Result<Value, ErrorV> {
    if op == Operator::Equal {
        equal_of(l, r)
    } else if op == Operator::And || op == Operator::Or {
        match truths_of(l, r) {
            Err(e) => Err(e),
            Ok((a, b)) => Ok(Value::Boolean(if op == Operator::And { a && b } else { a || b })),
        }
    } else {
        match numbers_of(l, r) {
            Err(e) => Err(e),
            Ok((a, b)) => match op {
                Operator::Add => checked(a + b),
                Operator::Subtract => checked(a - b),
                Operator::Multiply => checked(a * b),
                Operator::Divide => if b == 0 {
                    Err(ErrorV::DivisionByZero)
                } else {
                    checked(trunc_div(a as int, b as int))
                },
                Operator::NotEqual => Ok(Value::Boolean(a != b)),
                Operator::GreaterThan => Ok(Value::Boolean(a > b)),
                _ => Ok(Value::Boolean(a < b)),
            },
        }
    }
}

pub fn value_to_number(value: &Value) -> (r: Result<i32, RSLogoError>)
    ensures
        result_view(r) == number_of(*value),
{
    match value {
        Value::Number(n) => Ok(*n),
        Value::String(s) => match parse_int(s.as_str()) {
            Some(n) => Ok(n),
            None => Err(
                RSLogoError::UnexpectedValue { expected: "a number".to_owned(), got: s.clone() },
            ),
        },
        Value::Boolean(b) => Ok(if *b { 1 } else { 0 }),
        Value::Variable(_) => Err(RSLogoError::TypeMismatch),
    }
}

pub fn value_to_bool(value: &Value) -> (r: Result<bool, RSLogoError>)
    ensures
        result_view(r) == truth_of(*value),
{
    match value {
        Value::Boolean(b) => Ok(*b),
        Value::Number(n) => Ok(*n != 0),
        Value::String(s) => Ok(is_true_word(s.as_str())),
        Value::Variable(_) => Err(RSLogoError::TypeMismatch),
    }
}

fn both_numbers(left: &Value, right: &Value) -> (r: Result<(i32, i32), RSLogoError>)
    ensures
        result_view(r) == numbers_of(*left, *right),
{
    let a = value_to_number(left)?;
    let b = value_to_number(right)?;
    Ok((a, b))
}

fn both_truths(left: &Value, right: &Value) -> (r: Result<(bool, bool), RSLogoError>)
    ensures
        result_view(r) == truths_of(*left, *right),
{
    let a = value_to_bool(left)?;
    let b = value_to_bool(right)?;
    Ok((a, b))
}

pub fn add(left: &Value, right: &Value) -> (r: Result<Value, RSLogoError>)
    ensures
        result_view(r) == operate(Operator::Add, *left, *right),
{
    let (a, b) = both_numbers(left, right)?;
    match a.checked_add(b) {
        Some(n) => Ok(Value::Number(n)),
        None => Err(RSLogoError::Overflow),
    }
}

pub fn subtract(left: &Value, right: &Value) -> (r: Result<Value, RSLogoError>)
    ensures
        result_view(r) == operate(Operator::Subtract, *left, *right),
{
    let (a, b) = both_numbers(left, right)?;
    match a.checked_sub(b) {
        Some(n) => Ok(Value::Number(n)),
        None => Err(RSLogoError::Overflow),
    }
}

pub fn multiply(left: &Value, right: &Value) -> (r: Result<Value, RSLogoError>)
    ensures
        result_view(r) == operate(Operator::Multiply, *left, *right),
{
    let (a, b) = both_numbers(left, right)?;
    match a.checked_mul(b) {
        Some(n) => Ok(Value::Number(n)),
        None => Err(RSLogoError::Overflow),
    }
}

/// Integer division rounding toward zero; a zero divisor is `DivisionByZero`.
pub fn divide(left: &Value, right: &Value) -> (r: Result<Value, RSLogoError>)
    ensures
        result_view(r) == operate(Operator::Divide, *left, *right),
{
    let (a, b) = both_numbers(left, right)?;
    if b == 0 {
        return Err(RSLogoError::DivisionByZero);
    }
    let x: i64 = if a < 0 { -(a as i64) } else { a as i64 };
    let y: i64 = if b < 0 { -(b as i64) } else { b as i64 };
    let q: i64 = x / y;
    assert(0 <= q <= x) by (nonlinear_arith)
        requires
            0 <= x,
            0 < y,
            q == x / y,
    ;
    let v: i64 = if (a < 0) != (b < 0) { -q } else { q };
    if v < i32::MIN as i64 || v > i32::MAX as i64 {
        Err(RSLogoError::Overflow)
    } else {
        Ok(Value::Number(v as i32))
    }
}

pub fn equal(left: &Value, right: &Value) -> (r: Result<Value, RSLogoError>)
    ensures
        result_view(r) == operate(Operator::Equal, *left, *right),
{
    match (left, right) {
        (Value::Number(a), Value::Number(b)) => Ok(Value::Boolean(*a == *b)),
        (Value::String(a), Value::String(b)) => {
            let ua = to_upper(a.as_str());
            let ub = to_upper(b.as_str());
            Ok(Value::Boolean(same_text(ua.as_str(), ub.as_str())))
        },
        (Value::Boolean(a), Value::Boolean(b)) => Ok(Value::Boolean(*a == *b)),
        (Value::Number(a), Value::String(b)) => match parse_int(b.as_str()) {
            Some(n) => Ok(Value::Boolean(*a == n)),
            None => Err(RSLogoError::TypeMismatch),
        },
        (Value::String(b), Value::Number(a)) => match parse_int(b.as_str()) {
            Some(n) => Ok(Value::Boolean(*a == n)),
            None => Err(RSLogoError::TypeMismatch),
        },
        _ => Err(RSLogoError::TypeMismatch),
    }
}

pub fn not_equal(left: &Value, right: &Value) -> (r: Result<Value, RSLogoError>)
    ensures
        result_view(r) == operate(Operator::NotEqual, *left, *right),
{
    let (a, b) = both_numbers(left, right)?;
    Ok(Value::Boolean(a != b))
}

pub fn greater_than(left: &Value, right: &Value) -> (r: Result<Value, RSLogoError>)
    ensures
        result_view(r) == operate(Operator::GreaterThan, *left, *right),
{
    let (a, b) = both_numbers(left, right)?;
    Ok(Value::Boolean(a > b))
}

pub fn less_than(left: &Value, right: &Value) -> (r: Result<Value, RSLogoError>)
    ensures
        result_view(r) == operate(Operator::LessThan, *left, *right),
{
    let (a, b) = both_numbers(left, right)?;
    Ok(Value::Boolean(a < b))
}

pub fn and(left: &Value, right: &Value) -> (r: Result<Value, RSLogoError>)
    ensures
        result_view(r) == operate(Operator::And, *left, *right),
{
    let (a, b) = both_truths(left, right)?;
    Ok(Value::Boolean(a && b))
}

pub fn or(left: &Value, right: &Value) -> (r: Result<Value, RSLogoError>)
    ensures
        result_view(r) == operate(Operator::Or, *left, *right),
{
    let (a, b) = both_truths(left, right)?;
    Ok(Value::Boolean(a || b))
}

impl Operator {
    /// Pops the right operand, then the left one, and applies the operator.
    pub fn apply(&self, stack: &mut Stack) -> (r: Result<Value, RSLogoError>)
        ensures
            old(stack)@.len() < 2 ==> r is Err && r->Err_0 is StackUnderflow && final(stack)@
                == Seq::<Value>::empty(),
            old(stack)@.len() >= 2 ==> final(stack)@ == old(stack)@.subrange(
                0,
                old(stack)@.len() - 2,
            ) && result_view(r) == operate(
                *self,
                old(stack)@[old(stack)@.len() - 2],
                old(stack)@.last(),
            ),
    {
        let right = stack.pop()?;
        let left = stack.pop()?;
        assert(final(stack)@ =~= old(stack)@.subrange(0, old(stack)@.len() - 2));
        match self {
            Operator::Add => crate::operators::add(&left, &right),
            Operator::Subtract => subtract(&left, &right),
            Operator::Multiply => multiply(&left, &right),
            Operator::Divide => divide(&left, &right),
            Operator::Equal => equal(&left, &right),
            Operator::NotEqual => not_equal(&left, &right),
            Operator::GreaterThan => greater_than(&left, &right),
            Operator::LessThan => less_than(&left, &right),
            Operator::And => and(&left, &right),
            Operator::Or => or(&left, &right),
        }
    }
}

} // verus!
