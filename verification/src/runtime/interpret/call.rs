//! The evaluation of names and calls, and the choice of a clause.

use vstd::prelude::*;
use crate::errors::runtime::RuntimeError;
use crate::runtime::environment::Environment;
use crate::runtime::interpret::holds;
use crate::runtime::semantics;
use crate::runtime::value::Value;
use crate::grammar::assignment::{Function, Name, Pattern};
use crate::grammar::expression::{Arguments, Call};
use crate::grammar::view::{
    arguments_views,
    assignment_view,
    call_view,
    expression_views,
    expressions_view,
    function_view,
    pattern_view,
    pattern_views,
};
use crate::runtime::environment::{clause_view, clause_views, Clause};
use crate::runtime::interpret::{execute_block, execute_expression};
use crate::runtime::value::{compare, compare_inequality};

verus! {

/// The value of a name, or of what the calls behind it return.
pub fn execute_call(
    tree: &Call,
    environment: &mut Environment,
    scope: usize,
    depth: usize,
) -> (result: Result<Value, RuntimeError>)
    ensures
        holds(
            result,
            final(environment)@,
            semantics::call(call_view(*tree), old(environment)@, scope, depth as nat),
        ),
    decreases depth, 0nat, 0nat, tree, 0nat,
{
    proof {
        reveal(semantics::call);
        reveal(semantics::call_tail);
        reveal(semantics::apply);
    }
    let mut value = match environment.value(scope, tree.identifier.as_str()) {
        Some(value) => value,
        None => {
            return Err(RuntimeError::UnboundName);
        },
    };
    let mut i: usize = 0;
    while i < tree.arguments.len()
        invariant
            i <= tree.arguments.len(),
            semantics::call(call_view(*tree), old(environment)@, scope, depth as nat)
                == semantics::call_tail(
                arguments_views(tree.arguments@),
                i as nat,
                value,
                environment@,
                scope,
                depth as nat,
            ),
        decreases tree.arguments.len() - i,
    {
        proof {
            reveal(semantics::call_tail);
            reveal(semantics::apply);
        }
        value = match call_function(&value, &tree.arguments[i], environment, scope, depth) {
            Ok(value) => value,
            Err(error) => {
                return Err(error);
            },
        };
        i += 1;
    }
    proof {
        reveal(semantics::call_tail);
    }
    Ok(value)
}

/// The clauses of the function that `value` is.
pub fn get_function(value: &Value, environment: &Environment) -> (result: Result<
    Vec<Clause>,
    RuntimeError,
>)
    ensures
        match result {
            Ok(clauses) => {
                &&& *value matches Value::FunctionReference(group)
                &&& group < environment@.groups.len()
                &&& clause_views(clauses@) == environment@.groups[group as int]
            },
            Err(error) => {
                &&& error == RuntimeError::TypeMismatch
                &&& !(*value matches Value::FunctionReference(group) && group
                    < environment@.groups.len())
            },
        },
{
    match value {
        Value::FunctionReference(group) => match environment.function(*group) {
            Some(clauses) => Ok(clauses),
            None => Err(RuntimeError::TypeMismatch),
        },
        _ => Err(RuntimeError::TypeMismatch),
    }
}

/// What the function `value` returns for `arguments`.
pub fn call_function(
    value: &Value,
    arguments: &Arguments,
    environment: &mut Environment,
    scope: usize,
    depth: usize,
) -> (result: Result<Value, RuntimeError>)
    ensures
        holds(
            result,
            final(environment)@,
            semantics::apply(
                *value,
                expressions_view(*arguments),
                old(environment)@,
                scope,
                depth as nat,
            ),
        ),
    decreases depth, 0nat, 0nat, arguments, 1nat,
{
    proof {
        reveal(semantics::apply);
        reveal(semantics::values);
        reveal(semantics::dispatch);
    }
    let clauses = match get_function(value, environment) {
        Ok(clauses) => clauses,
        Err(error) => {
            return Err(error);
        },
    };
    let given = match execute_values(arguments, environment, scope, depth) {
        Ok(given) => given,
        Err(error) => {
            return Err(error);
        },
    };
    if depth == 0 {
        return Err(RuntimeError::DepthExceeded);
    }
    dispatch(&clauses, &given, environment, depth - 1)
}

/// The values of the expressions of `list`, in order.
pub fn execute_values(
    list: &Arguments,
    environment: &mut Environment,
    scope: usize,
    depth: usize,
) -> (result: Result<Vec<Value>, RuntimeError>)
    ensures
        holds(
            match result {
                Ok(given) => Ok(given@),
                Err(error) => Err(error),
            },
            final(environment)@,
            semantics::values(expressions_view(*list), old(environment)@, scope, depth as nat),
        ),
    decreases depth, 0nat, 0nat, list, 0nat,
{
    proof {
        reveal(semantics::values);
        reveal(semantics::values_tail);
        reveal(semantics::expression);
    }
    let mut given: Vec<Value> = Vec::new();
    match execute_expression(&list.0, environment, scope, depth) {
        Ok(value) => {
            given.push(value);
        },
        Err(error) => {
            return Err(error);
        },
    }
    assert(given@ =~= seq![given@[0]]);
    let mut i: usize = 0;
    while i < list.1.len()
        invariant
            i <= list.1.len(),
            semantics::values(expressions_view(*list), old(environment)@, scope, depth as nat)
                == semantics::values_tail(
                expression_views(list.1@),
                i as nat,
                given@,
                environment@,
                scope,
                depth as nat,
            ),
        decreases list.1.len() - i,
    {
        proof {
            reveal(semantics::values_tail);
            reveal(semantics::expression);
        }
        match execute_expression(&list.1[i], environment, scope, depth) {
            Ok(value) => {
                given.push(value);
            },
            Err(error) => {
                return Err(error);
            },
        }
        i += 1;
    }
    proof {
        reveal(semantics::values_tail);
    }
    Ok(given)
}

/// What the first of `clauses` that accepts `given` returns for it.
pub fn dispatch(
    clauses: &Vec<Clause>,
    given: &Vec<Value>,
    environment: &mut Environment,
    depth: usize,
) -> (result: Result<Value, RuntimeError>)
    ensures
        holds(
            result,
            final(environment)@,
            semantics::dispatch(clause_views(clauses@), 0, given@, old(environment)@, depth as nat),
        ),
    decreases depth, 3nat, 0nat, clauses, 0nat,
{
    proof {
        reveal(semantics::dispatch);
        reveal(semantics::attempt);
        reveal(semantics::block);
    }
    let mut k: usize = 0;
    while k < clauses.len()
        invariant
            k <= clauses.len(),
            semantics::dispatch(clause_views(clauses@), 0, given@, old(environment)@, depth as nat)
                == semantics::dispatch(
                clause_views(clauses@),
                k as nat,
                given@,
                environment@,
                depth as nat,
            ),
        decreases clauses.len() - k,
    {
        proof {
            reveal(semantics::dispatch);
            reveal(semantics::attempt);
            reveal(semantics::block);
        }
        let length = environment.scopes();
        let before = environment.mark();
        match attempt(&clauses[k], given, environment, depth) {
            Ok(Some(opened)) => {
                let result = execute_block(
                    &clauses[k].definition.block,
                    environment,
                    opened,
                    depth,
                );
                environment.release(length, before);
                return result;
            },
            Ok(None) => {
                environment.release(length, before);
            },
            Err(error) => {
                environment.release(length, before);
                return Err(error);
            },
        }
        k += 1;
    }
    proof {
        reveal(semantics::dispatch);
    }
    Err(RuntimeError::NoMatchingDefinition)
}

/// Holds `given` against the patterns of `clause`, in a scope opened for the
/// call, and returns that scope if every pattern accepts.
pub fn attempt(
    clause: &Clause,
    given: &Vec<Value>,
    environment: &mut Environment,
    depth: usize,
) -> (result: Result<Option<usize>, RuntimeError>)
    ensures
        holds(
            result,
            final(environment)@,
            semantics::attempt(clause_view(*clause), given@, old(environment)@, depth as nat),
        ),
    decreases depth, 2nat, 0nat, clause, 0nat,
{
    proof {
        reveal(semantics::attempt);
        reveal(semantics::accept);
        reveal(semantics::accept_tail);
        reveal_with_fuel(assignment_view, 3);
    }
    let parameters = match &clause.definition.function.parameters {
        Some(parameters) => parameters,
        None => {
            return Ok(None);
        },
    };
    if given.len() == 0 || parameters.1.len() != given.len() - 1 {
        return Ok(None);
    }
    let opened = environment.new_child(clause.scope);
    match accept(&parameters.0, given[0], environment, opened, depth) {
        Ok(true) => {},
        Ok(false) => {
            return Ok(None);
        },
        Err(error) => {
            return Err(error);
        },
    }
    let mut i: usize = 0;
    while i < parameters.1.len()
        invariant
            i <= parameters.1.len() == given.len() - 1,
            semantics::attempt(clause_view(*clause), given@, old(environment)@, depth as nat)
                == semantics::accept_tail(
                pattern_views(parameters.1@),
                i as nat,
                given@,
                environment@,
                opened,
                depth as nat,
            ),
        decreases parameters.1.len() - i,
    {
        proof {
            reveal(semantics::accept);
            reveal(semantics::accept_tail);
        }
        match accept(&parameters.1[i], given[i + 1], environment, opened, depth) {
            Ok(true) => {},
            Ok(false) => {
                return Ok(None);
            },
            Err(error) => {
                return Err(error);
            },
        }
        i += 1;
    }
    proof {
        reveal(semantics::accept_tail);
    }
    Ok(Some(opened))
}

/// The name that a pattern binds its argument to.
fn name_of(pattern: &Pattern) -> (name: &Name)
    ensures
        crate::grammar::view::name_view(*name) == semantics::name_of(pattern_view(*pattern)),
{
    proof {
        reveal_with_fuel(pattern_view, 2);
    }
    match pattern {
        Pattern::Function(shape) => &shape.name,
        Pattern::Refinement(refinement) => &refinement.name,
        Pattern::Bounds(bounds) => &bounds.name,
    }
}

/// Whether a value has the shape of a function.
fn shape_accepts(shape: &Function, given: Value, environment: &Environment) -> (fits: bool)
    ensures
        fits == semantics::shape_accepts(function_view(*shape), given, environment@),
{
    proof {
        reveal_with_fuel(function_view, 2);
    }
    match &shape.parameters {
        None => true,
        Some(parameters) => match given {
            Value::FunctionReference(group) => environment.takes(group, parameters.1.len()),
            _ => false,
        },
    }
}

/// Whether `pattern` accepts `given`, which is bound to the name of the
/// pattern in the scope `opened` first.
pub fn accept(
    pattern: &Pattern,
    given: Value,
    environment: &mut Environment,
    opened: usize,
    depth: usize,
) -> (result: Result<bool, RuntimeError>)
    ensures
        holds(
            result,
            final(environment)@,
            semantics::accept(pattern_view(*pattern), given, old(environment)@, opened, depth as nat),
        ),
    decreases depth, 1nat, 0nat, pattern, 0nat,
{
    proof {
        reveal(semantics::accept);
        reveal(semantics::expression);
        reveal_with_fuel(pattern_view, 2);
    }
    match name_of(pattern) {
        Name::Identified(lexeme) => {
            environment.define_value(opened, lexeme.as_str(), given);
        },
        Name::Anonymous => {},
    }
    match pattern {
        Pattern::Function(shape) => Ok(shape_accepts(shape, given, environment)),
        Pattern::Refinement(refinement) => {
            let limit = match execute_expression(
                &refinement.constraint,
                environment,
                opened,
                depth,
            ) {
                Ok(limit) => limit,
                Err(error) => {
                    return Err(error);
                },
            };
            compare(given, &refinement.comparator, limit)
        },
        Pattern::Bounds(bounds) => {
            let lower = match execute_expression(
                &bounds.left.constraint,
                environment,
                opened,
                depth,
            ) {
                Ok(lower) => lower,
                Err(error) => {
                    return Err(error);
                },
            };
            match compare_inequality(lower, &bounds.left.inequality, given) {
                Ok(true) => {},
                Ok(false) => {
                    return Ok(false);
                },
                Err(error) => {
                    return Err(error);
                },
            }
            let upper = match execute_expression(
                &bounds.right.constraint,
                environment,
                opened,
                depth,
            ) {
                Ok(upper) => upper,
                Err(error) => {
                    return Err(error);
                },
            };
            compare_inequality(given, &bounds.right.inequality, upper)
        },
    }
}

} // verus!
