//! What programs mean: the value of every tree, and what evaluating it does
//! to the environment.
//!
//! Each function here takes the environment before and returns, with the
//! value or the error, the environment after. Evaluation goes from left to
//! right and stops at the first error: what was defined before it stays
//! defined. `depth` is how deep calls may still be nested.

use vstd::prelude::*;
use crate::errors::runtime::RuntimeError;
use crate::grammar::view::{
    AddOrSubtractView,
    AssignmentView,
    CallView,
    ComparisonView,
    ComparisonsView,
    EpsilonView,
    ExpressionView,
    ExpressionsView,
    FunctionView,
    ModuloView,
    MultiplyOrDivideView,
    NameView,
    NumberView,
    PatternView,
    PowerView,
    PrimaryView,
    ProductView,
    ProgramView,
    SumView,
};
use crate::runtime::environment::{ClauseView, EnvironmentView};
use crate::runtime::number::{literal, Number};
use crate::runtime::value::{applied, approximated, comparator_for, compared, Operator, Value};

verus! {

/// An error and the environment at the point where it came up.
pub type Failed = (RuntimeError, EnvironmentView);

/// A value and the environment behind its evaluation, or an error.
pub type Evaluated = Result<(Value, EnvironmentView), Failed>;

/// The values of several expressions and the environment behind them.
pub type EvaluatedAll = Result<(Seq<Value>, EnvironmentView), Failed>;

/// Whether a pattern accepts, and the environment behind the test.
pub type Tested = Result<(bool, EnvironmentView), Failed>;

/// The scope that a clause opened for its call if it takes the arguments,
/// and the environment behind the attempt.
pub type Attempted = Result<(Option<usize>, EnvironmentView), Failed>;

/// The value of a program, evaluated in the root scope.
pub open spec fn program(tree: ProgramView, environment: EnvironmentView, depth: nat) -> Evaluated {
    match tree {
        ProgramView::Expressions(list) => block(list, environment, 0, depth),
        ProgramView::Comparisons(list) => chain(list, environment, 0, depth),
    }
}

/// The value of expressions one after another: the value of the last.
#[verifier::opaque]
pub open spec fn block(
    list: ExpressionsView,
    environment: EnvironmentView,
    scope: usize,
    depth: nat,
) -> Evaluated
    decreases depth, 0nat, 0nat, list, 0nat,
{
    match expression(list.head, environment, scope, depth) {
        Err(error) => Err(error),
        Ok((value, after)) => block_tail(list.tail, 0, value, after, scope, depth),
    }
}

/// The value of the expressions of `tail` from `i` on, behind an expression
/// of the value `last`.
#[verifier::opaque]
pub open spec fn block_tail(
    tail: Seq<ExpressionView>,
    i: nat,
    last: Value,
    environment: EnvironmentView,
    scope: usize,
    depth: nat,
) -> Evaluated
    decreases depth, 0nat, 0nat, tail, tail.len() - i,
{
    if i >= tail.len() {
        Ok((last, environment))
    } else {
        match expression(tail[i as int], environment, scope, depth) {
            Err(error) => Err(error),
            Ok((value, after)) => block_tail(tail, i + 1, value, after, scope, depth),
        }
    }
}

/// The value of a chain of comparisons: whether each holds between its
/// neighbours. Behind the first that does not hold, nothing is evaluated.
#[verifier::opaque]
pub open spec fn chain(
    list: ComparisonsView,
    environment: EnvironmentView,
    scope: usize,
    depth: nat,
) -> Evaluated
    decreases depth, 0nat, 0nat, list, 0nat,
{
    match expression(list.lhs, environment, scope, depth) {
        Err(error) => Err(error),
        Ok((lhs, first)) => match expression(list.comparisons.head.rhs, first, scope, depth) {
            Err(error) => Err(error),
            Ok((rhs, second)) => match compared(lhs, list.comparisons.head.comparator, rhs) {
                Err(error) => Err((error, second)),
                Ok(holds) => chain_tail(list.comparisons.tail, 0, rhs, holds, second, scope, depth),
            },
        },
    }
}

/// The value of a chain whose comparisons before `i` have been made:
/// `previous` is the operand to the left of comparison `i`, and `holds` says
/// whether every comparison so far holds.
#[verifier::opaque]
pub open spec fn chain_tail(
    tail: Seq<ComparisonView>,
    i: nat,
    previous: Value,
    holds: bool,
    environment: EnvironmentView,
    scope: usize,
    depth: nat,
) -> Evaluated
    decreases depth, 0nat, 0nat, tail, tail.len() - i,
{
    if i >= tail.len() || !holds {
        Ok((Value::Boolean(holds), environment))
    } else {
        match expression(tail[i as int].rhs, environment, scope, depth) {
            Err(error) => Err(error),
            Ok((next, after)) => match compared(previous, tail[i as int].comparator, next) {
                Err(error) => Err((error, after)),
                Ok(still) => chain_tail(tail, i + 1, next, still, after, scope, depth),
            },
        }
    }
}

/// The value of an expression: that of its arithmetic, or of its definition.
#[verifier::opaque]
pub open spec fn expression(
    tree: ExpressionView,
    environment: EnvironmentView,
    scope: usize,
    depth: nat,
) -> Evaluated
    decreases depth, 0nat, 0nat, tree, 0nat,
{
    match tree {
        ExpressionView::Arithmetic(arithmetic) => epsilon(*arithmetic, environment, scope, depth),
        ExpressionView::Assignment(definition) => assignment(
            *definition,
            environment,
            scope,
            depth,
        ),
    }
}

/// The value of a definition. That of a plain value is the value of its
/// block, evaluated in a scope of its own, which is given up afterwards, and
/// then bound to the name in the scope of the definition. That of a function
/// is the function.
#[verifier::opaque]
pub open spec fn assignment(
    tree: AssignmentView,
    environment: EnvironmentView,
    scope: usize,
    depth: nat,
) -> Evaluated
    decreases depth, 0nat, 0nat, tree, 0nat,
{
    match tree.function.parameters {
        Some(_) => Ok(defined(tree, environment, scope)),
        None => {
            let length = environment.scopes.len() as int;
            let before = environment.captured;
            match block(tree.block, environment.marked().open(scope), length as usize, depth) {
                Err((error, after)) => Err((error, after.released(length, before))),
                Ok((value, after)) => Ok(
                    (
                        value,
                        match tree.function.name {
                            NameView::Identified(lexeme) => after.released(length, before).define(
                                scope as int,
                                lexeme.text,
                                value,
                            ),
                            NameView::Anonymous => after.released(length, before),
                        },
                    ),
                ),
            }
        },
    }
}

/// The function that a definition with parameters stands for once it is
/// made, and the environment with it. Where the name stands for a function
/// already, in this scope or around it, the definition is one more clause of
/// that function. Otherwise it is the first clause of a new function, which
/// the name stands for from then on; a definition without a name makes a
/// function that no name stands for.
pub open spec fn defined(tree: AssignmentView, environment: EnvironmentView, scope: usize) -> (
    Value,
    EnvironmentView,
) {
    let clause = ClauseView { definition: tree, scope };
    let fresh = environment.groups.len() as usize;
    match tree.function.name {
        NameView::Anonymous => (Value::FunctionReference(fresh), environment.found(clause)),
        NameView::Identified(lexeme) => match environment.lookup(scope as int, lexeme.text) {
            Some(Value::FunctionReference(group)) if group < environment.groups.len() => (
                Value::FunctionReference(group),
                environment.extend(group as int, clause),
            ),
            _ => (
                Value::FunctionReference(fresh),
                environment.found(clause).define(
                    scope as int,
                    lexeme.text,
                    Value::FunctionReference(fresh),
                ),
            ),
        },
    }
}

/// `lhs ~ rhs`, or `lhs` alone.
#[verifier::opaque]
pub open spec fn epsilon(
    tree: EpsilonView,
    environment: EnvironmentView,
    scope: usize,
    depth: nat,
) -> Evaluated
    decreases depth, 0nat, 0nat, tree, 0nat,
{
    match modulo(tree.lhs, environment, scope, depth) {
        Err(error) => Err(error),
        Ok((value, first)) => match tree.rhs {
            None => Ok((value, first)),
            Some(rhs) => match modulo(rhs, first, scope, depth) {
                Err(error) => Err(error),
                Ok((tolerance, second)) => match approximated(value, tolerance) {
                    Err(error) => Err((error, second)),
                    Ok(approximate) => Ok((approximate, second)),
                },
            },
        },
    }
}

/// The value of a chain of remainders, taken from left to right.
#[verifier::opaque]
pub open spec fn modulo(
    tree: ModuloView,
    environment: EnvironmentView,
    scope: usize,
    depth: nat,
) -> Evaluated
    decreases depth, 0nat, 0nat, tree, 0nat,
{
    match sum(tree.head, environment, scope, depth) {
        Err(error) => Err(error),
        Ok((value, after)) => modulo_tail(tree.tail, 0, value, after, scope, depth),
    }
}

/// The remainders from `i` on, taken one after another from `left`.
#[verifier::opaque]
pub open spec fn modulo_tail(
    tail: Seq<SumView>,
    i: nat,
    left: Value,
    environment: EnvironmentView,
    scope: usize,
    depth: nat,
) -> Evaluated
    decreases depth, 0nat, 0nat, tail, tail.len() - i,
{
    if i >= tail.len() {
        Ok((left, environment))
    } else {
        match sum(tail[i as int], environment, scope, depth) {
            Err(error) => Err(error),
            Ok((right, after)) => match applied(Operator::Modulo, left, right) {
                Err(error) => Err((error, after)),
                Ok(value) => modulo_tail(tail, i + 1, value, after, scope, depth),
            },
        }
    }
}

/// The value of a chain of additions and subtractions, made from left to right.
#[verifier::opaque]
pub open spec fn sum(
    tree: SumView,
    environment: EnvironmentView,
    scope: usize,
    depth: nat,
) -> Evaluated
    decreases depth, 0nat, 0nat, tree, 0nat,
{
    match product(tree.head, environment, scope, depth) {
        Err(error) => Err(error),
        Ok((value, after)) => sum_tail(tree.tail, 0, value, after, scope, depth),
    }
}

/// The additions and subtractions from `i` on, made one after another on
/// `left`.
#[verifier::opaque]
pub open spec fn sum_tail(
    tail: Seq<AddOrSubtractView>,
    i: nat,
    left: Value,
    environment: EnvironmentView,
    scope: usize,
    depth: nat,
) -> Evaluated
    decreases depth, 0nat, 0nat, tail, tail.len() - i,
{
    if i >= tail.len() {
        Ok((left, environment))
    } else {
        let (operator, operand) = match tail[i as int] {
            AddOrSubtractView::Add(operand) => (Operator::Add, operand),
            AddOrSubtractView::Subtract(operand) => (Operator::Subtract, operand),
        };
        match product(operand, environment, scope, depth) {
            Err(error) => Err(error),
            Ok((right, after)) => match applied(operator, left, right) {
                Err(error) => Err((error, after)),
                Ok(value) => sum_tail(tail, i + 1, value, after, scope, depth),
            },
        }
    }
}

/// The value of a chain of multiplications and divisions, made from left to
/// right.
#[verifier::opaque]
pub open spec fn product(
    tree: ProductView,
    environment: EnvironmentView,
    scope: usize,
    depth: nat,
) -> Evaluated
    decreases depth, 0nat, 0nat, tree, 0nat,
{
    match power(tree.head, environment, scope, depth) {
        Err(error) => Err(error),
        Ok((value, after)) => product_tail(tree.tail, 0, value, after, scope, depth),
    }
}

/// The multiplications and divisions from `i` on, made one after another on
/// `left`.
#[verifier::opaque]
pub open spec fn product_tail(
    tail: Seq<MultiplyOrDivideView>,
    i: nat,
    left: Value,
    environment: EnvironmentView,
    scope: usize,
    depth: nat,
) -> Evaluated
    decreases depth, 0nat, 0nat, tail, tail.len() - i,
{
    if i >= tail.len() {
        Ok((left, environment))
    } else {
        let (operator, operand) = match tail[i as int] {
            MultiplyOrDivideView::Multiply(operand) => (Operator::Multiply, operand),
            MultiplyOrDivideView::Divide(operand) => (Operator::Divide, operand),
        };
        match power(operand, environment, scope, depth) {
            Err(error) => Err(error),
            Ok((right, after)) => match applied(operator, left, right) {
                Err(error) => Err((error, after)),
                Ok(value) => product_tail(tail, i + 1, value, after, scope, depth),
            },
        }
    }
}

/// The value of a chain of powers, taken from left to right.
#[verifier::opaque]
pub open spec fn power(
    tree: PowerView,
    environment: EnvironmentView,
    scope: usize,
    depth: nat,
) -> Evaluated
    decreases depth, 0nat, 0nat, tree, 0nat,
{
    match primary(tree.head, environment, scope, depth) {
        Err(error) => Err(error),
        Ok((value, after)) => power_tail(tree.tail, 0, value, after, scope, depth),
    }
}

/// The powers from `i` on, taken one after another of `left`.
#[verifier::opaque]
pub open spec fn power_tail(
    tail: Seq<PrimaryView>,
    i: nat,
    left: Value,
    environment: EnvironmentView,
    scope: usize,
    depth: nat,
) -> Evaluated
    decreases depth, 0nat, 0nat, tail, tail.len() - i,
{
    if i >= tail.len() {
        Ok((left, environment))
    } else {
        match primary(tail[i as int], environment, scope, depth) {
            Err(error) => Err(error),
            Ok((right, after)) => match applied(Operator::Power, left, right) {
                Err(error) => Err((error, after)),
                Ok(value) => power_tail(tail, i + 1, value, after, scope, depth),
            },
        }
    }
}

/// The value of an operand: a number, a name or a call, or an expression in
/// parentheses.
#[verifier::opaque]
pub open spec fn primary(
    tree: PrimaryView,
    environment: EnvironmentView,
    scope: usize,
    depth: nat,
) -> Evaluated
    decreases depth, 0nat, 0nat, tree, 0nat,
{
    match tree {
        PrimaryView::Number(numeral) => match number(numeral) {
            Err(error) => Err((error, environment)),
            Ok(value) => Ok((value, environment)),
        },
        PrimaryView::Call(reference) => call(reference, environment, scope, depth),
        PrimaryView::Grouping(inner) => expression(inner, environment, scope, depth),
    }
}

/// The number that a numeral spells, with its sign.
pub open spec fn number(tree: NumberView) -> Result<Value, RuntimeError> {
    match literal(tree.number.text) {
        Err(error) => Err(error),
        Ok(value) => Ok(
            Value::Number(
                if tree.negative {
                    Number { units: (-value.units) as i128, tolerance: value.tolerance }
                } else {
                    value
                },
            ),
        ),
    }
}

/// The value of a name, or of what the calls behind it return, one made on
/// the result of the other.
#[verifier::opaque]
pub open spec fn call(
    tree: CallView,
    environment: EnvironmentView,
    scope: usize,
    depth: nat,
) -> Evaluated
    decreases depth, 0nat, 0nat, tree, 0nat,
{
    match environment.lookup(scope as int, tree.identifier.text) {
        None => Err((RuntimeError::UnboundName, environment)),
        Some(value) => call_tail(tree.arguments, 0, value, environment, scope, depth),
    }
}

/// What the calls from `i` on return, the first made on `callee`.
#[verifier::opaque]
pub open spec fn call_tail(
    lists: Seq<ExpressionsView>,
    i: nat,
    callee: Value,
    environment: EnvironmentView,
    scope: usize,
    depth: nat,
) -> Evaluated
    decreases depth, 0nat, 0nat, lists, lists.len() - i,
{
    if i >= lists.len() {
        Ok((callee, environment))
    } else {
        match apply(callee, lists[i as int], environment, scope, depth) {
            Err(error) => Err(error),
            Ok((value, after)) => call_tail(lists, i + 1, value, after, scope, depth),
        }
    }
}

/// What the function `callee` returns for `arguments`. The arguments are
/// evaluated where the call stands; then the clauses that the function had
/// before are tried in order.
#[verifier::opaque]
pub open spec fn apply(
    callee: Value,
    arguments: ExpressionsView,
    environment: EnvironmentView,
    scope: usize,
    depth: nat,
) -> Evaluated
    decreases depth, 0nat, 0nat, arguments, 1nat,
{
    match callee {
        Value::FunctionReference(group) if group < environment.groups.len() => match values(
            arguments,
            environment,
            scope,
            depth,
        ) {
            Err(error) => Err(error),
            Ok((given, after)) => if depth == 0 {
                Err((RuntimeError::DepthExceeded, after))
            } else {
                dispatch(environment.groups[group as int], 0, given, after, (depth - 1) as nat)
            },
        },
        _ => Err((RuntimeError::TypeMismatch, environment)),
    }
}

/// The values of the expressions of `list`, in order.
#[verifier::opaque]
pub open spec fn values(
    list: ExpressionsView,
    environment: EnvironmentView,
    scope: usize,
    depth: nat,
) -> EvaluatedAll
    decreases depth, 0nat, 0nat, list, 0nat,
{
    match expression(list.head, environment, scope, depth) {
        Err(error) => Err(error),
        Ok((value, after)) => values_tail(list.tail, 0, seq![value], after, scope, depth),
    }
}

/// The values of the expressions of `tail` from `i` on, behind `seen`.
#[verifier::opaque]
pub open spec fn values_tail(
    tail: Seq<ExpressionView>,
    i: nat,
    seen: Seq<Value>,
    environment: EnvironmentView,
    scope: usize,
    depth: nat,
) -> EvaluatedAll
    decreases depth, 0nat, 0nat, tail, tail.len() - i,
{
    if i >= tail.len() {
        Ok((seen, environment))
    } else {
        match expression(tail[i as int], environment, scope, depth) {
            Err(error) => Err(error),
            Ok((value, after)) => values_tail(tail, i + 1, seen.push(value), after, scope, depth),
        }
    }
}

/// What the first clause from `k` on that accepts `given` returns for it.
/// The scope of each attempt and the scopes of the call are given up behind
/// it.
#[verifier::opaque]
pub open spec fn dispatch(
    clauses: Seq<ClauseView>,
    k: nat,
    given: Seq<Value>,
    environment: EnvironmentView,
    depth: nat,
) -> Evaluated
    decreases depth, 3nat, clauses.len() - k, clauses, 0nat,
{
    if k >= clauses.len() {
        Err((RuntimeError::NoMatchingDefinition, environment))
    } else {
        let length = environment.scopes.len() as int;
        let before = environment.captured;
        match attempt(clauses[k as int], given, environment.marked(), depth) {
            Err((error, after)) => Err((error, after.released(length, before))),
            Ok((None, after)) => dispatch(
                clauses,
                k + 1,
                given,
                after.released(length, before),
                depth,
            ),
            Ok((Some(opened), after)) => match block(
                clauses[k as int].definition.block,
                after,
                opened,
                depth,
            ) {
                Err((error, last)) => Err((error, last.released(length, before))),
                Ok((value, last)) => Ok((value, last.released(length, before))),
            },
        }
    }
}

/// Holds `given` against the patterns of `clause`, in a scope that is opened
/// for the call in the scope of the definition. A clause of another number
/// of parameters opens none.
#[verifier::opaque]
pub open spec fn attempt(
    clause: ClauseView,
    given: Seq<Value>,
    environment: EnvironmentView,
    depth: nat,
) -> Attempted
    decreases depth, 2nat, 0nat, clause, 0nat,
{
    match clause.definition.function.parameters {
        None => Ok((None, environment)),
        Some(parameters) => if parameters.tail.len() + 1 != given.len() {
            Ok((None, environment))
        } else {
            let opened = environment.scopes.len() as usize;
            match accept(parameters.head, given[0], environment.open(clause.scope), opened, depth) {
                Err(error) => Err(error),
                Ok((false, after)) => Ok((None, after)),
                Ok((true, after)) => accept_tail(parameters.tail, 0, given, after, opened, depth),
            }
        },
    }
}

/// Holds the arguments behind the first against the patterns of `patterns`
/// from `i` on.
#[verifier::opaque]
pub open spec fn accept_tail(
    patterns: Seq<PatternView>,
    i: nat,
    given: Seq<Value>,
    environment: EnvironmentView,
    opened: usize,
    depth: nat,
) -> Attempted
    decreases depth, 1nat, patterns.len() - i + 1, patterns, 0nat,
{
    if i >= patterns.len() {
        Ok((Some(opened), environment))
    } else {
        match accept(patterns[i as int], given[i as int + 1], environment, opened, depth) {
            Err(error) => Err(error),
            Ok((false, after)) => Ok((None, after)),
            Ok((true, after)) => accept_tail(patterns, i + 1, given, after, opened, depth),
        }
    }
}

/// The name that a pattern binds its argument to.
pub open spec fn name_of(pattern: PatternView) -> NameView {
    match pattern {
        PatternView::Function(shape) => shape.name,
        PatternView::Refinement(refinement) => refinement.name,
        PatternView::Bounds(bounds) => bounds.name,
    }
}

/// Whether `pattern` accepts `given`. The argument is bound to the name of
/// the pattern first, so that the limits of this pattern and of those behind
/// it can speak of it.
#[verifier::opaque]
pub open spec fn accept(
    pattern: PatternView,
    given: Value,
    environment: EnvironmentView,
    opened: usize,
    depth: nat,
) -> Tested
    decreases depth, 1nat, 0nat, pattern, 0nat,
{
    let bound = match name_of(pattern) {
        NameView::Identified(lexeme) => environment.define(opened as int, lexeme.text, given),
        NameView::Anonymous => environment,
    };
    match pattern {
        PatternView::Function(shape) => Ok((shape_accepts(*shape, given, bound), bound)),
        PatternView::Refinement(refinement) => match expression(
            refinement.constraint,
            bound,
            opened,
            depth,
        ) {
            Err(error) => Err(error),
            Ok((limit, after)) => match compared(given, refinement.comparator, limit) {
                Err(error) => Err((error, after)),
                Ok(holds) => Ok((holds, after)),
            },
        },
        PatternView::Bounds(bounds) => match expression(
            bounds.left.constraint,
            bound,
            opened,
            depth,
        ) {
            Err(error) => Err(error),
            Ok((lower, first)) => match compared(
                lower,
                comparator_for(bounds.left.inequality),
                given,
            ) {
                Err(error) => Err((error, first)),
                Ok(false) => Ok((false, first)),
                Ok(true) => match expression(bounds.right.constraint, first, opened, depth) {
                    Err(error) => Err(error),
                    Ok((upper, second)) => match compared(
                        given,
                        comparator_for(bounds.right.inequality),
                        upper,
                    ) {
                        Err(error) => Err((error, second)),
                        Ok(holds) => Ok((holds, second)),
                    },
                },
            },
        },
    }
}

/// Whether a value has the shape of a function: a shape without parameters
/// is a plain name, which every value has; one with parameters asks for a
/// function whose first clause has as many.
pub open spec fn shape_accepts(shape: FunctionView, given: Value, environment: EnvironmentView) -> bool {
    match shape.parameters {
        None => true,
        Some(parameters) => match given {
            Value::FunctionReference(group) => {
                &&& group < environment.groups.len()
                &&& environment.groups[group as int].len() > 0
                &&& environment.groups[group as int][0].arity() == parameters.tail.len() + 1
            },
            _ => false,
        },
    }
}

/// Behind a comparison that does not hold, a chain evaluates nothing: its
/// value is `false` and the environment stays as it is, whatever the operands
/// that follow are.
pub proof fn lemma_chain_stops_at_failure(
    tail: Seq<ComparisonView>,
    i: nat,
    previous: Value,
    environment: EnvironmentView,
    scope: usize,
    depth: nat,
)
    ensures
        chain_tail(tail, i, previous, false, environment, scope, depth) == Ok::<
            (Value, EnvironmentView),
            Failed,
        >((Value::Boolean(false), environment)),
{
    reveal(chain_tail);
}

/// Where the first `k` comparisons of a chain already make it `false`, the
/// whole chain is `false` and leaves the same environment: the operands from
/// `k` on are not evaluated, so it does not matter what they are or whether
/// they have a value at all.
pub proof fn lemma_chain_is_decided_by_its_failure(
    tail: Seq<ComparisonView>,
    k: nat,
    i: nat,
    previous: Value,
    holds: bool,
    environment: EnvironmentView,
    scope: usize,
    depth: nat,
    after: EnvironmentView,
)
    requires
        i <= k <= tail.len(),
        chain_tail(tail.take(k as int), i, previous, holds, environment, scope, depth) == Ok::<
            (Value, EnvironmentView),
            Failed,
        >((Value::Boolean(false), after)),
    ensures
        chain_tail(tail, i, previous, holds, environment, scope, depth) == Ok::<
            (Value, EnvironmentView),
            Failed,
        >((Value::Boolean(false), after)),
    decreases k - i,
{
    reveal(chain_tail);
    if holds && i < k {
        let head = tail.take(k as int);
        assert(head[i as int] == tail[i as int]);
        match expression(tail[i as int].rhs, environment, scope, depth) {
            Err(_) => {},
            Ok((next, later)) => match compared(previous, tail[i as int].comparator, next) {
                Err(_) => {},
                Ok(still) => {
                    lemma_chain_is_decided_by_its_failure(
                        tail,
                        k,
                        i + 1,
                        next,
                        still,
                        later,
                        scope,
                        depth,
                        after,
                    );
                },
            },
        }
    }
}

} // verus!
