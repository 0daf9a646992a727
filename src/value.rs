//! Runtime values, the two operators, and the coercions between numbers and
//! strings that the operators apply.
use vstd::prelude::*;
use vstd::string::StringExecFns;

use crate::text::{decimal, decimal_string};

verus! {

/// A binary operator.
#[derive(Debug, Clone, Copy, PartialEq, Eq, Structural)]
pub enum Operation {
    /// `+`
    Addition,
    /// `*`
    Multiplication,
}

/// A runtime value.
#[derive(Debug, PartialEq, Eq)]
pub enum Value {
    Number(i64),
    String(String),
}

/// What a value stands for, with text as a sequence of characters.
pub enum ValueModel {
    Number(i64),
    String(Seq<char>),
}

impl View for Value {
    type V = ValueModel;

    open spec fn view(&self) -> ValueModel {
        match self {
            Value::Number(n) => ValueModel::Number(*n),
            Value::String(s) => ValueModel::String(s@),
        }
    }
}

impl Clone for Value {
    fn clone(&self) -> (r: Value)
        ensures
            r == *self,
    {
        match self {
            Value::Number(n) => Value::Number(*n),
            Value::String(s) => Value::String(s.clone()),
        }
    }
}

/// Why evaluation failed.
#[derive(Debug, PartialEq, Eq)]
pub enum RuntimeError {
    /// A name was read that no `let` has bound.
    VariableNotFound(String),
    /// The operator was applied to two strings.
    UnsupportedOperands(Operation),
    /// A string was to be repeated a negative number of times.
    NegativeRepeat(i64),
    /// The result of the operator on two numbers does not fit in 64 bits.
    Overflow(Operation),
}

/// What a runtime error stands for, with text as a sequence of characters.
pub enum RuntimeErrorModel {
    VariableNotFound(Seq<char>),
    UnsupportedOperands(Operation),
    NegativeRepeat(i64),
    Overflow(Operation),
}

impl View for RuntimeError {
    type V = RuntimeErrorModel;

    open spec fn view(&self) -> RuntimeErrorModel {
        match self {
            RuntimeError::VariableNotFound(name) => RuntimeErrorModel::VariableNotFound(name@),
            RuntimeError::UnsupportedOperands(op) => RuntimeErrorModel::UnsupportedOperands(*op),
            RuntimeError::NegativeRepeat(n) => RuntimeErrorModel::NegativeRepeat(*n),
            RuntimeError::Overflow(op) => RuntimeErrorModel::Overflow(*op),
        }
    }
}

/// The model of the outcome of an evaluation.
pub open spec fn value_outcome(r: Result<Value, RuntimeError>) -> Result<
    ValueModel,
    RuntimeErrorModel,
> {
    match r {
        Ok(v) => Ok(v@),
        Err(e) => Err(e@),
    }
}

/// `s` written `n` times in a row.
pub open spec fn repeat(s: Seq<char>, n: nat) -> Seq<char>
    decreases n,
{
    if n == 0 {
        Seq::empty()
    } else {
        repeat(s, (n - 1) as nat) + s
    }
}

/// A 64-bit result, or `None` where `v` does not fit.
pub open spec fn fit_i64(v: int) -> Option<i64> {
    if i64::MIN <= v && v <= i64::MAX {
        Some(v as i64)
    } else {
        None
    }
}

/// `s` repeated `n` times; an error for a negative `n`.
pub open spec fn repeat_value(s: Seq<char>, n: i64) -> Result<ValueModel, RuntimeErrorModel> {
    if n < 0 {
        Err(RuntimeErrorModel::NegativeRepeat(n))
    } else {
        Ok(ValueModel::String(repeat(s, n as nat)))
    }
}

/// The result of `left op right`. Two numbers add or multiply; a number added
/// to a string is written in decimal and joined on its side; a string times a
/// number, either way round, is the string repeated; two strings are an error.
pub open spec fn apply(op: Operation, left: ValueModel, right: ValueModel) -> Result<
    ValueModel,
    RuntimeErrorModel,
> {
    match (left, right) {
        (ValueModel::Number(a), ValueModel::Number(b)) => {
            let exact = if op == Operation::Addition {
                a + b
            } else {
                a * b
            };
            match fit_i64(exact) {
                Some(n) => Ok(ValueModel::Number(n)),
                None => Err(RuntimeErrorModel::Overflow(op)),
            }
        },
        (ValueModel::Number(a), ValueModel::String(s)) => if op == Operation::Addition {
            Ok(ValueModel::String(decimal(a as int) + s))
        } else {
            repeat_value(s, a)
        },
        (ValueModel::String(s), ValueModel::Number(a)) => if op == Operation::Addition {
            Ok(ValueModel::String(s + decimal(a as int)))
        } else {
            repeat_value(s, a)
        },
        (ValueModel::String(_), ValueModel::String(_)) => Err(
            RuntimeErrorModel::UnsupportedOperands(op),
        ),
    }
}

fn repeat_string(s: &String, n: i64) -> (r: String)
    requires
        n >= 0,
    ensures
        r@ == repeat(s@, n as nat),
{
    let mut out = String::new();
    let mut i: i64 = 0;
    while i < n
        invariant
            0 <= i <= n,
            out@ == repeat(s@, i as nat),
        decreases n - i,
    {
        out.append(s.as_str());
        i = i + 1;
    }
    out
}

impl Value {
    /// `self + other`.
    pub fn add(self, other: Value) -> (r: Result<Value, RuntimeError>)
        ensures
            value_outcome(r) == apply(Operation::Addition, self@, other@),
    {
        match (self, other) {
            (Value::Number(a), Value::Number(b)) => match a.checked_add(b) {
                Some(n) => Ok(Value::Number(n)),
                None => Err(RuntimeError::Overflow(Operation::Addition)),
            },
            (Value::Number(a), Value::String(s)) => {
                let mut out = decimal_string(a);
                out.append(s.as_str());
                Ok(Value::String(out))
            },
            (Value::String(s), Value::Number(a)) => {
                let tail = decimal_string(a);
                let mut out = s;
                out.append(tail.as_str());
                Ok(Value::String(out))
            },
            (Value::String(_), Value::String(_)) => Err(
                RuntimeError::UnsupportedOperands(Operation::Addition),
            ),
        }
    }

    /// `self * other`.
    pub fn mul(self, other: Value) -> (r: Result<Value, RuntimeError>)
        ensures
            value_outcome(r) == apply(Operation::Multiplication, self@, other@),
    {
        match (self, other) {
            (Value::Number(a), Value::Number(b)) => match a.checked_mul(b) {
                Some(n) => Ok(Value::Number(n)),
                None => Err(RuntimeError::Overflow(Operation::Multiplication)),
            },
            (Value::Number(a), Value::String(s)) | (Value::String(s), Value::Number(a)) => {
                if a < 0 {
                    Err(RuntimeError::NegativeRepeat(a))
                } else {
                    Ok(Value::String(repeat_string(&s, a)))
                }
            },
            (Value::String(_), Value::String(_)) => Err(
                RuntimeError::UnsupportedOperands(Operation::Multiplication),
            ),
        }
    }
}

} // verus!
