//! The evaluation of arithmetic.

use vstd::prelude::*;
use crate::errors::runtime::RuntimeError;
use crate::runtime::environment::Environment;
use crate::runtime::interpret::holds;
use crate::runtime::semantics;
use crate::runtime::value::{Operator, Value};
use crate::grammar::expression::{
    AddOrSubtract,
    Epsilon,
    Modulo,
    MultiplyOrDivide,
    Number,
    Power,
    Primary,
    Product,
    Sum,
};
use crate::grammar::view::{
    add_or_subtract_views,
    epsilon_view,
    modulo_view,
    multiply_or_divide_views,
    number_view,
    power_view,
    primary_view,
    primary_views,
    product_view,
    sum_view,
    sum_views,
};
use crate::runtime::interpret::call::execute_call;
use crate::runtime::interpret::execute_expression;
use crate::runtime::number;

verus! {

/// `lhs ~ rhs`, or `lhs` alone.
pub fn execute_epsilon(
    tree: &Epsilon,
    environment: &mut Environment,
    scope: usize,
    depth: usize,
) -> (result: Result<Value, RuntimeError>)
    ensures
        holds(
            result,
            final(environment)@,
            semantics::epsilon(epsilon_view(*tree), old(environment)@, scope, depth as nat),
        ),
    decreases depth, 0nat, 0nat, tree, 0nat,
{
    proof {
        reveal(semantics::epsilon);
        reveal(semantics::modulo);
    }
    let value = match execute_modulo(&tree.lhs, environment, scope, depth) {
        Ok(value) => value,
        Err(error) => {
            return Err(error);
        },
    };
    match &tree.rhs {
        None => Ok(value),
        Some(rhs) => match execute_modulo(rhs, environment, scope, depth) {
            Ok(tolerance) => value.epsilon(tolerance),
            Err(error) => Err(error),
        },
    }
}

/// A chain of remainders, taken from left to right.
pub fn execute_modulo(
    tree: &Modulo,
    environment: &mut Environment,
    scope: usize,
    depth: usize,
) -> (result: Result<Value, RuntimeError>)
    ensures
        holds(
            result,
            final(environment)@,
            semantics::modulo(modulo_view(*tree), old(environment)@, scope, depth as nat),
        ),
    decreases depth, 0nat, 0nat, tree, 0nat,
{
    proof {
        reveal(semantics::modulo);
        reveal(semantics::modulo_tail);
        reveal(semantics::sum);
    }
    let mut value = match execute_sum(&tree.0, environment, scope, depth) {
        Ok(value) => value,
        Err(error) => {
            return Err(error);
        },
    };
    let mut i: usize = 0;
    while i < tree.1.len()
        invariant
            i <= tree.1.len(),
            semantics::modulo(modulo_view(*tree), old(environment)@, scope, depth as nat)
                == semantics::modulo_tail(
                sum_views(tree.1@),
                i as nat,
                value,
                environment@,
                scope,
                depth as nat,
            ),
        decreases tree.1.len() - i,
    {
        proof {
        reveal(semantics::modulo_tail);
        reveal(semantics::sum);
        }
        let right = match execute_sum(&tree.1[i], environment, scope, depth) {
            Ok(right) => right,
            Err(error) => {
                return Err(error);
            },
        };
        value = match value.apply(Operator::Modulo, right) {
            Ok(value) => value,
            Err(error) => {
                return Err(error);
            },
        };
        i += 1;
    }
    proof {
        reveal(semantics::modulo_tail);
        reveal(semantics::sum);
    }
    Ok(value)
}

/// A chain of additions and subtractions, made from left to right.
pub fn execute_sum(
    tree: &Sum,
    environment: &mut Environment,
    scope: usize,
    depth: usize,
) -> (result: Result<Value, RuntimeError>)
    ensures
        holds(
            result,
            final(environment)@,
            semantics::sum(sum_view(*tree), old(environment)@, scope, depth as nat),
        ),
    decreases depth, 0nat, 0nat, tree, 0nat,
{
    proof {
        reveal(semantics::sum);
        reveal(semantics::sum_tail);
        reveal(semantics::product);
    }
    let mut value = match execute_product(&tree.0, environment, scope, depth) {
        Ok(value) => value,
        Err(error) => {
            return Err(error);
        },
    };
    let mut i: usize = 0;
    while i < tree.1.len()
        invariant
            i <= tree.1.len(),
            semantics::sum(sum_view(*tree), old(environment)@, scope, depth as nat)
                == semantics::sum_tail(
                add_or_subtract_views(tree.1@),
                i as nat,
                value,
                environment@,
                scope,
                depth as nat,
            ),
        decreases tree.1.len() - i,
    {
        proof {
        reveal(semantics::sum_tail);
        reveal(semantics::product);
        }
        let (operator, operand) = match &tree.1[i] {
            AddOrSubtract::Add(operand) => (Operator::Add, operand),
            AddOrSubtract::Subtract(operand) => (Operator::Subtract, operand),
        };
        let right = match execute_product(operand, environment, scope, depth) {
            Ok(right) => right,
            Err(error) => {
                return Err(error);
            },
        };
        value = match value.apply(operator, right) {
            Ok(value) => value,
            Err(error) => {
                return Err(error);
            },
        };
        i += 1;
    }
    proof {
        reveal(semantics::sum_tail);
        reveal(semantics::product);
    }
    Ok(value)
}

/// A chain of multiplications and divisions, made from left to right.
pub fn execute_product(
    tree: &Product,
    environment: &mut Environment,
    scope: usize,
    depth: usize,
) -> (result: Result<Value, RuntimeError>)
    ensures
        holds(
            result,
            final(environment)@,
            semantics::product(product_view(*tree), old(environment)@, scope, depth as nat),
        ),
    decreases depth, 0nat, 0nat, tree, 0nat,
{
    proof {
        reveal(semantics::product);
        reveal(semantics::product_tail);
        reveal(semantics::power);
    }
    let mut value = match execute_power(&tree.0, environment, scope, depth) {
        Ok(value) => value,
        Err(error) => {
            return Err(error);
        },
    };
    let mut i: usize = 0;
    while i < tree.1.len()
        invariant
            i <= tree.1.len(),
            semantics::product(product_view(*tree), old(environment)@, scope, depth as nat)
                == semantics::product_tail(
                multiply_or_divide_views(tree.1@),
                i as nat,
                value,
                environment@,
                scope,
                depth as nat,
            ),
        decreases tree.1.len() - i,
    {
        proof {
        reveal(semantics::product_tail);
        reveal(semantics::power);
        }
        let (operator, operand) = match &tree.1[i] {
            MultiplyOrDivide::Multiply(operand) => (Operator::Multiply, operand),
            MultiplyOrDivide::Divide(operand) => (Operator::Divide, operand),
        };
        let right = match execute_power(operand, environment, scope, depth) {
            Ok(right) => right,
            Err(error) => {
                return Err(error);
            },
        };
        value = match value.apply(operator, right) {
            Ok(value) => value,
            Err(error) => {
                return Err(error);
            },
        };
        i += 1;
    }
    proof {
        reveal(semantics::product_tail);
        reveal(semantics::power);
    }
    Ok(value)
}

/// A chain of powers, taken from left to right.
pub fn execute_power(
    tree: &Power,
    environment: &mut Environment,
    scope: usize,
    depth: usize,
) -> (result: Result<Value, RuntimeError>)
    ensures
        holds(
            result,
            final(environment)@,
            semantics::power(power_view(*tree), old(environment)@, scope, depth as nat),
        ),
    decreases depth, 0nat, 0nat, tree, 0nat,
{
    proof {
        reveal(semantics::power);
        reveal(semantics::power_tail);
        reveal(semantics::primary);
    }
    let mut value = match execute_primary(&tree.0, environment, scope, depth) {
        Ok(value) => value,
        Err(error) => {
            return Err(error);
        },
    };
    let mut i: usize = 0;
    while i < tree.1.len()
        invariant
            i <= tree.1.len(),
            semantics::power(power_view(*tree), old(environment)@, scope, depth as nat)
                == semantics::power_tail(
                primary_views(tree.1@),
                i as nat,
                value,
                environment@,
                scope,
                depth as nat,
            ),
        decreases tree.1.len() - i,
    {
        proof {
        reveal(semantics::power_tail);
        reveal(semantics::primary);
        }
        let right = match execute_primary(&tree.1[i], environment, scope, depth) {
            Ok(right) => right,
            Err(error) => {
                return Err(error);
            },
        };
        value = match value.apply(Operator::Power, right) {
            Ok(value) => value,
            Err(error) => {
                return Err(error);
            },
        };
        i += 1;
    }
    proof {
        reveal(semantics::power_tail);
        reveal(semantics::primary);
    }
    Ok(value)
}

/// A number, a name or a call, or an expression in parentheses.
pub fn execute_primary(
    tree: &Primary,
    environment: &mut Environment,
    scope: usize,
    depth: usize,
) -> (result: Result<Value, RuntimeError>)
    ensures
        holds(
            result,
            final(environment)@,
            semantics::primary(primary_view(*tree), old(environment)@, scope, depth as nat),
        ),
    decreases depth, 0nat, 0nat, tree, 0nat,
{
    proof {
        reveal(semantics::primary);
        reveal(semantics::call);
        reveal(semantics::expression);
    }
    match tree {
        Primary::Number(numeral) => execute_number(numeral),
        Primary::Call(reference) => execute_call(reference, environment, scope, depth),
        Primary::Grouping(grouping) => execute_expression(&grouping.0, environment, scope, depth),
    }
}

/// The number that a numeral spells, with its sign.
pub fn execute_number(tree: &Number) -> (result: Result<Value, RuntimeError>)
    ensures
        result == semantics::number(number_view(*tree)),
{
    let value = match number::Number::parse(tree.number.as_str()) {
        Ok(value) => value,
        Err(error) => {
            return Err(error);
        },
    };
    if tree.negative {
        match value.negate() {
            Ok(negated) => Ok(Value::Number(negated)),
            Err(error) => Err(error),
        }
    } else {
        Ok(Value::Number(value))
    }
}

} // verus!
