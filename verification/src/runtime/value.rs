//! The values of expressions, and the operators on them.

use vstd::prelude::*;
use crate::errors::runtime::RuntimeError;
use crate::grammar::assignment::Inequality;
use crate::grammar::comparison::Comparator;
use crate::runtime::number::{
    below,
    difference_of,
    divided,
    magnitude_of,
    modulo,
    raised,
    same,
    sum_of,
    times,
    Number,
};

verus! {

/// What an expression evaluates to.
#[derive(Clone, Copy, Debug, PartialEq, Eq, Structural)]
pub enum Value {
    Number(Number),
    Boolean(bool),
    /// A function, known by the place of its group of clauses in the
    /// environment.
    FunctionReference(usize),
}

/// The operators of arithmetic.
#[derive(Clone, Copy, Debug, PartialEq, Eq, Structural)]
pub enum Operator {
    Add,
    Subtract,
    Multiply,
    Divide,
    Modulo,
    Power,
}

/// What `operator` makes of two numbers.
pub open spec fn calculated(operator: Operator, lhs: Number, rhs: Number) -> Result<
    Number,
    RuntimeError,
> {
    match operator {
        Operator::Add => sum_of(lhs, rhs),
        Operator::Subtract => difference_of(lhs, rhs),
        Operator::Multiply => times(lhs, rhs),
        Operator::Divide => divided(lhs, rhs),
        Operator::Modulo => modulo(lhs, rhs),
        Operator::Power => raised(lhs, rhs),
    }
}

/// What `operator` makes of two values: a number of two numbers, and a
/// mismatch of anything else.
pub open spec fn applied(operator: Operator, lhs: Value, rhs: Value) -> Result<
    Value,
    RuntimeError,
> {
    match (lhs, rhs) {
        (Value::Number(a), Value::Number(b)) => match calculated(operator, a, b) {
            Ok(number) => Ok(Value::Number(number)),
            Err(error) => Err(error),
        },
        _ => Err(RuntimeError::TypeMismatch),
    }
}

/// `value ~ tolerance`: the number `value`, to be taken for equal to every
/// number that is no further from it than the magnitude of `tolerance`.
pub open spec fn approximated(value: Value, tolerance: Value) -> Result<Value, RuntimeError> {
    match (value, tolerance) {
        (Value::Number(a), Value::Number(b)) => Ok(
            Value::Number(
                Number { units: a.units, tolerance: magnitude_of(b.units as int) as u128 },
            ),
        ),
        _ => Err(RuntimeError::TypeMismatch),
    }
}

/// Whether `lhs comparator rhs` holds. Numbers are compared within their
/// tolerances. Booleans and functions are equal or not, and have no order.
/// Values of two kinds do not compare.
pub open spec fn compared(lhs: Value, comparator: Comparator, rhs: Value) -> Result<
    bool,
    RuntimeError,
> {
    match (lhs, rhs) {
        (Value::Number(a), Value::Number(b)) => Ok(
            match comparator {
                Comparator::LessThan => below(a, b),
                Comparator::LessThanOrEqualTo => below(a, b) || same(a, b),
                Comparator::GreaterThan => below(b, a),
                Comparator::GreaterThanOrEqualTo => below(b, a) || same(a, b),
                Comparator::EqualTo => same(a, b),
                Comparator::NotEqualTo => !same(a, b),
            },
        ),
        (Value::Boolean(a), Value::Boolean(b)) => match comparator {
            Comparator::EqualTo => Ok(a == b),
            Comparator::NotEqualTo => Ok(a != b),
            _ => Err(RuntimeError::TypeMismatch),
        },
        (Value::FunctionReference(a), Value::FunctionReference(b)) => match comparator {
            Comparator::EqualTo => Ok(a == b),
            Comparator::NotEqualTo => Ok(a != b),
            _ => Err(RuntimeError::TypeMismatch),
        },
        _ => Err(RuntimeError::TypeMismatch),
    }
}

/// The comparator that says what `inequality` says.
pub open spec fn comparator_for(inequality: Inequality) -> Comparator {
    match inequality {
        Inequality::LessThan => Comparator::LessThan,
        Inequality::LessThanOrEqualTo => Comparator::LessThanOrEqualTo,
        Inequality::GreaterThan => Comparator::GreaterThan,
        Inequality::GreaterThanOrEqualTo => Comparator::GreaterThanOrEqualTo,
    }
}

impl Value {
    /// See [`applied`].
    pub fn apply(self, operator: Operator, other: Value) -> (result: Result<Value, RuntimeError>)
        ensures
            result == applied(operator, self, other),
    {
        match (self, other) {
            (Value::Number(a), Value::Number(b)) => {
                let number = match operator {
                    Operator::Add => a.add(b),
                    Operator::Subtract => a.subtract(b),
                    Operator::Multiply => a.multiply(b),
                    Operator::Divide => a.divide(b),
                    Operator::Modulo => a.remainder(b),
                    Operator::Power => a.power(b),
                };
                match number {
                    Ok(number) => Ok(Value::Number(number)),
                    Err(error) => Err(error),
                }
            },
            _ => Err(RuntimeError::TypeMismatch),
        }
    }

    /// See [`approximated`].
    pub fn epsilon(self, tolerance: Value) -> (result: Result<Value, RuntimeError>)
        ensures
            result == approximated(self, tolerance),
    {
        match (self, tolerance) {
            (Value::Number(a), Value::Number(b)) => Ok(Value::Number(a.within(b))),
            _ => Err(RuntimeError::TypeMismatch),
        }
    }
}

impl From<bool> for Value {
    fn from(value: bool) -> (result: Value) {
        Value::Boolean(value)
    }
}

impl vstd::std_specs::convert::FromSpecImpl<bool> for Value {
    open spec fn obeys_from_spec() -> bool {
        true
    }

    open spec fn from_spec(value: bool) -> Value {
        Value::Boolean(value)
    }
}

impl From<i32> for Value {
    /// The whole number `value`.
    fn from(value: i32) -> (result: Value) {
        Value::Number(Number::from_integer(value))
    }
}

impl vstd::std_specs::convert::FromSpecImpl<i32> for Value {
    open spec fn obeys_from_spec() -> bool {
        true
    }

    open spec fn from_spec(value: i32) -> Value {
        Value::Number(
            Number { units: (value * crate::runtime::number::SCALE) as i128, tolerance: 0 },
        )
    }
}

impl From<Number> for Value {
    fn from(value: Number) -> (result: Value) {
        Value::Number(value)
    }
}

impl vstd::std_specs::convert::FromSpecImpl<Number> for Value {
    open spec fn obeys_from_spec() -> bool {
        true
    }

    open spec fn from_spec(value: Number) -> Value {
        Value::Number(value)
    }
}

/// See [`compared`].
pub fn compare(lhs: Value, comparator: &Comparator, rhs: Value) -> (result: Result<
    bool,
    RuntimeError,
>)
    ensures
        result == compared(lhs, *comparator, rhs),
{
    match (lhs, rhs) {
        (Value::Number(a), Value::Number(b)) => Ok(
            match comparator {
                Comparator::LessThan => a.less_than(b),
                Comparator::LessThanOrEqualTo => a.less_than(b) || a.equals(b),
                Comparator::GreaterThan => b.less_than(a),
                Comparator::GreaterThanOrEqualTo => b.less_than(a) || a.equals(b),
                Comparator::EqualTo => a.equals(b),
                Comparator::NotEqualTo => !a.equals(b),
            },
        ),
        (Value::Boolean(a), Value::Boolean(b)) => match comparator {
            Comparator::EqualTo => Ok(a == b),
            Comparator::NotEqualTo => Ok(a != b),
            _ => Err(RuntimeError::TypeMismatch),
        },
        (Value::FunctionReference(a), Value::FunctionReference(b)) => match comparator {
            Comparator::EqualTo => Ok(a == b),
            Comparator::NotEqualTo => Ok(a != b),
            _ => Err(RuntimeError::TypeMismatch),
        },
        _ => Err(RuntimeError::TypeMismatch),
    }
}

/// How two values compare by an inequality: see [`compared`].
pub fn compare_inequality(lhs: Value, inequality: &Inequality, rhs: Value) -> (result: Result<
    bool,
    RuntimeError,
>)
    ensures
        result == compared(lhs, comparator_for(*inequality), rhs),
{
    let comparator = match inequality {
        Inequality::LessThan => Comparator::LessThan,
        Inequality::LessThanOrEqualTo => Comparator::LessThanOrEqualTo,
        Inequality::GreaterThan => Comparator::GreaterThan,
        Inequality::GreaterThanOrEqualTo => Comparator::GreaterThanOrEqualTo,
    };
    compare(lhs, &comparator, rhs)
}

} // verus!
