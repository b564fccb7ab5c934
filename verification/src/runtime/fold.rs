//! Arithmetic on its own: the value of an expression that holds nothing but
//! numerals, operators and parentheses.
//!
//! Such an expression reads no name and defines none, so its value is a fold
//! over its operands from left to right that needs no environment. Evaluating
//! it in any environment gives that value and leaves the environment as it
//! was.

use vstd::prelude::*;
use crate::errors::runtime::RuntimeError;
use crate::grammar::list::ListView;
use crate::grammar::view::{
    AddOrSubtractView,
    EpsilonView,
    ExpressionView,
    ModuloView,
    MultiplyOrDivideView,
    PowerView,
    PrimaryView,
    ProductView,
    ProgramView,
    SumView,
};
use crate::parser::rules;
use crate::runtime::environment::EnvironmentView;
use crate::runtime::interpret::meaning;
use crate::runtime::semantics;
use crate::runtime::value::{applied, approximated, Operator, Value};
use crate::scanner::scan_of;

verus! {

/// Whether an expression is arithmetic on its own: no definition, and no
/// name or call among its operands.
pub open spec fn plain_expression(tree: ExpressionView) -> bool
    decreases tree,
{
    match tree {
        ExpressionView::Arithmetic(arithmetic) => plain_epsilon(*arithmetic),
        ExpressionView::Assignment(_) => false,
    }
}

/// Whether an approximation is arithmetic on its own.
pub open spec fn plain_epsilon(tree: EpsilonView) -> bool
    decreases tree,
{
    &&& plain_modulo(tree.lhs)
    &&& match tree.rhs {
        Some(rhs) => plain_modulo(rhs),
        None => true,
    }
}

/// Whether a chain of remainders is arithmetic on its own.
pub open spec fn plain_modulo(tree: ModuloView) -> bool
    decreases tree,
{
    &&& plain_sum(tree.head)
    &&& forall|i: int| 0 <= i < tree.tail.len() ==> plain_sum(#[trigger] tree.tail[i])
}

/// Whether a sum is arithmetic on its own.
pub open spec fn plain_sum(tree: SumView) -> bool
    decreases tree,
{
    &&& plain_product(tree.head)
    &&& forall|i: int| 0 <= i < tree.tail.len() ==> plain_term(#[trigger] tree.tail[i])
}

/// Whether a term of a sum is arithmetic on its own.
pub open spec fn plain_term(tree: AddOrSubtractView) -> bool
    decreases tree,
{
    match tree {
        AddOrSubtractView::Add(operand) => plain_product(operand),
        AddOrSubtractView::Subtract(operand) => plain_product(operand),
    }
}

/// Whether a product is arithmetic on its own.
pub open spec fn plain_product(tree: ProductView) -> bool
    decreases tree,
{
    &&& plain_power(tree.head)
    &&& forall|i: int| 0 <= i < tree.tail.len() ==> plain_factor(#[trigger] tree.tail[i])
}

/// Whether a factor of a product is arithmetic on its own.
pub open spec fn plain_factor(tree: MultiplyOrDivideView) -> bool
    decreases tree,
{
    match tree {
        MultiplyOrDivideView::Multiply(operand) => plain_power(operand),
        MultiplyOrDivideView::Divide(operand) => plain_power(operand),
    }
}

/// Whether a power is arithmetic on its own.
pub open spec fn plain_power(tree: PowerView) -> bool
    decreases tree,
{
    &&& plain_primary(tree.head)
    &&& forall|i: int| 0 <= i < tree.tail.len() ==> plain_primary(#[trigger] tree.tail[i])
}

/// Whether an operand is arithmetic on its own.
pub open spec fn plain_primary(tree: PrimaryView) -> bool
    decreases tree,
{
    match tree {
        PrimaryView::Number(_) => true,
        PrimaryView::Call(_) => false,
        PrimaryView::Grouping(inner) => plain_expression(inner),
    }
}

/// The value of arithmetic on its own. Where the expression is not plain,
/// the value of a name is an error.
pub open spec fn folded_expression(tree: ExpressionView) -> Result<Value, RuntimeError>
    decreases tree, 0nat,
{
    match tree {
        ExpressionView::Arithmetic(arithmetic) => folded_epsilon(*arithmetic),
        ExpressionView::Assignment(_) => Err(RuntimeError::UnboundName),
    }
}

/// The value of an approximation that is arithmetic on its own.
pub open spec fn folded_epsilon(tree: EpsilonView) -> Result<Value, RuntimeError>
    decreases tree, 0nat,
{
    match folded_modulo(tree.lhs) {
        Err(error) => Err(error),
        Ok(value) => match tree.rhs {
            None => Ok(value),
            Some(rhs) => match folded_modulo(rhs) {
                Err(error) => Err(error),
                Ok(tolerance) => approximated(value, tolerance),
            },
        },
    }
}

/// The value of a chain of remainders that is arithmetic on its own.
pub open spec fn folded_modulo(tree: ModuloView) -> Result<Value, RuntimeError>
    decreases tree, 0nat,
{
    match folded_sum(tree.head) {
        Err(error) => Err(error),
        Ok(value) => folded_modulo_tail(tree.tail, 0, value),
    }
}

/// The fold of the operands from `i` on into `left`.
pub open spec fn folded_modulo_tail(tail: Seq<SumView>, i: nat, left: Value) -> Result<
    Value,
    RuntimeError,
>
    decreases tail, tail.len() - i,
{
    if i >= tail.len() {
        Ok(left)
    } else {
        match folded_sum(tail[i as int]) {
            Err(error) => Err(error),
            Ok(right) => match applied(Operator::Modulo, left, right) {
                Err(error) => Err(error),
                Ok(value) => folded_modulo_tail(tail, i + 1, value),
            },
        }
    }
}

/// The value of a sum that is arithmetic on its own.
pub open spec fn folded_sum(tree: SumView) -> Result<Value, RuntimeError>
    decreases tree, 0nat,
{
    match folded_product(tree.head) {
        Err(error) => Err(error),
        Ok(value) => folded_sum_tail(tree.tail, 0, value),
    }
}

/// The fold of the operands from `i` on into `left`.
pub open spec fn folded_sum_tail(tail: Seq<AddOrSubtractView>, i: nat, left: Value) -> Result<
    Value,
    RuntimeError,
>
    decreases tail, tail.len() - i,
{
    if i >= tail.len() {
        Ok(left)
    } else {
        let (operator, operand) = match tail[i as int] {
            AddOrSubtractView::Add(operand) => (Operator::Add, operand),
            AddOrSubtractView::Subtract(operand) => (Operator::Subtract, operand),
        };
        match folded_product(operand) {
            Err(error) => Err(error),
            Ok(right) => match applied(operator, left, right) {
                Err(error) => Err(error),
                Ok(value) => folded_sum_tail(tail, i + 1, value),
            },
        }
    }
}

/// The value of a product that is arithmetic on its own.
pub open spec fn folded_product(tree: ProductView) -> Result<Value, RuntimeError>
    decreases tree, 0nat,
{
    match folded_power(tree.head) {
        Err(error) => Err(error),
        Ok(value) => folded_product_tail(tree.tail, 0, value),
    }
}

/// The fold of the operands from `i` on into `left`.
pub open spec fn folded_product_tail(tail: Seq<MultiplyOrDivideView>, i: nat, left: Value) -> Result<
    Value,
    RuntimeError,
>
    decreases tail, tail.len() - i,
{
    if i >= tail.len() {
        Ok(left)
    } else {
        let (operator, operand) = match tail[i as int] {
            MultiplyOrDivideView::Multiply(operand) => (Operator::Multiply, operand),
            MultiplyOrDivideView::Divide(operand) => (Operator::Divide, operand),
        };
        match folded_power(operand) {
            Err(error) => Err(error),
            Ok(right) => match applied(operator, left, right) {
                Err(error) => Err(error),
                Ok(value) => folded_product_tail(tail, i + 1, value),
            },
        }
    }
}

/// The value of a power that is arithmetic on its own.
pub open spec fn folded_power(tree: PowerView) -> Result<Value, RuntimeError>
    decreases tree, 0nat,
{
    match folded_primary(tree.head) {
        Err(error) => Err(error),
        Ok(value) => folded_power_tail(tree.tail, 0, value),
    }
}

/// The fold of the operands from `i` on into `left`.
pub open spec fn folded_power_tail(tail: Seq<PrimaryView>, i: nat, left: Value) -> Result<
    Value,
    RuntimeError,
>
    decreases tail, tail.len() - i,
{
    if i >= tail.len() {
        Ok(left)
    } else {
        match folded_primary(tail[i as int]) {
            Err(error) => Err(error),
            Ok(right) => match applied(Operator::Power, left, right) {
                Err(error) => Err(error),
                Ok(value) => folded_power_tail(tail, i + 1, value),
            },
        }
    }
}

/// The value of an operand that is arithmetic on its own.
pub open spec fn folded_primary(tree: PrimaryView) -> Result<Value, RuntimeError>
    decreases tree, 0nat,
{
    match tree {
        PrimaryView::Number(numeral) => semantics::number(numeral),
        PrimaryView::Call(_) => Err(RuntimeError::UnboundName),
        PrimaryView::Grouping(inner) => folded_expression(inner),
    }
}

/// A value or an error that came up in `environment` and left it as it was.
pub open spec fn untouched(result: Result<Value, RuntimeError>, environment: EnvironmentView) -> semantics::Evaluated {
    match result {
        Ok(value) => Ok((value, environment)),
        Err(error) => Err((error, environment)),
    }
}

/// Evaluating arithmetic on its own gives its fold, whatever the environment,
/// the scope and the depth are, and changes nothing.
pub proof fn lemma_plain_expression(
    tree: ExpressionView,
    environment: EnvironmentView,
    scope: usize,
    depth: nat,
)
    requires
        plain_expression(tree),
    ensures
        semantics::expression(tree, environment, scope, depth) == untouched(
            folded_expression(tree),
            environment,
        ),
    decreases tree, 0nat,
{
    reveal(semantics::expression);
    reveal(semantics::epsilon);
    match tree {
        ExpressionView::Arithmetic(arithmetic) => {
            lemma_plain_epsilon(*arithmetic, environment, scope, depth);
        },
        ExpressionView::Assignment(_) => {},
    }
}

/// Evaluating an approximation of arithmetic on its own gives its fold and changes nothing.
pub proof fn lemma_plain_epsilon(
    tree: EpsilonView,
    environment: EnvironmentView,
    scope: usize,
    depth: nat,
)
    requires
        plain_epsilon(tree),
    ensures
        semantics::epsilon(tree, environment, scope, depth) == untouched(
            folded_epsilon(tree),
            environment,
        ),
    decreases tree, 0nat,
{
    reveal(semantics::epsilon);
    reveal(semantics::modulo);
    lemma_plain_modulo(tree.lhs, environment, scope, depth);
    match tree.rhs {
        Some(rhs) => {
            lemma_plain_modulo(rhs, environment, scope, depth);
        },
        None => {},
    }
}

/// Evaluating a chain of remainders of arithmetic on its own gives its fold and changes nothing.
pub proof fn lemma_plain_modulo(
    tree: ModuloView,
    environment: EnvironmentView,
    scope: usize,
    depth: nat,
)
    requires
        plain_modulo(tree),
    ensures
        semantics::modulo(tree, environment, scope, depth) == untouched(
            folded_modulo(tree),
            environment,
        ),
    decreases tree, 0nat,
{
    reveal(semantics::modulo);
    reveal(semantics::modulo_tail);
    reveal(semantics::sum);
    lemma_plain_sum(tree.head, environment, scope, depth);
    match folded_sum(tree.head) {
        Ok(value) => {
            lemma_plain_modulo_tail(tree.tail, 0, value, environment, scope, depth);
        },
        Err(_) => {},
    }
}

/// Evaluating the rest of a chain of remainders of arithmetic on its own gives its fold and
/// changes nothing.
pub proof fn lemma_plain_modulo_tail(
    tail: Seq<SumView>,
    i: nat,
    left: Value,
    environment: EnvironmentView,
    scope: usize,
    depth: nat,
)
    requires
        forall|k: int| 0 <= k < tail.len() ==> plain_sum(#[trigger] tail[k]),
    ensures
        semantics::modulo_tail(tail, i, left, environment, scope, depth) == untouched(
            folded_modulo_tail(tail, i, left),
            environment,
        ),
    decreases tail, tail.len() - i,
{
    reveal(semantics::modulo_tail);
    reveal(semantics::sum);
    if i < tail.len() {
        assert(plain_sum(tail[i as int]));
        lemma_plain_sum(tail[i as int], environment, scope, depth);
        match folded_sum(tail[i as int]) {
            Ok(right) => match applied(Operator::Modulo, left, right) {
                Ok(value) => {
                    lemma_plain_modulo_tail(tail, i + 1, value, environment, scope, depth);
                },
                Err(_) => {},
            },
            Err(_) => {},
        }
    }
}

/// Evaluating a sum of arithmetic on its own gives its fold and changes nothing.
pub proof fn lemma_plain_sum(
    tree: SumView,
    environment: EnvironmentView,
    scope: usize,
    depth: nat,
)
    requires
        plain_sum(tree),
    ensures
        semantics::sum(tree, environment, scope, depth) == untouched(
            folded_sum(tree),
            environment,
        ),
    decreases tree, 0nat,
{
    reveal(semantics::sum);
    reveal(semantics::sum_tail);
    reveal(semantics::product);
    lemma_plain_product(tree.head, environment, scope, depth);
    match folded_product(tree.head) {
        Ok(value) => {
            lemma_plain_sum_tail(tree.tail, 0, value, environment, scope, depth);
        },
        Err(_) => {},
    }
}

/// Evaluating the rest of a sum of arithmetic on its own gives its fold and
/// changes nothing.
pub proof fn lemma_plain_sum_tail(
    tail: Seq<AddOrSubtractView>,
    i: nat,
    left: Value,
    environment: EnvironmentView,
    scope: usize,
    depth: nat,
)
    requires
        forall|k: int| 0 <= k < tail.len() ==> plain_term(#[trigger] tail[k]),
    ensures
        semantics::sum_tail(tail, i, left, environment, scope, depth) == untouched(
            folded_sum_tail(tail, i, left),
            environment,
        ),
    decreases tail, tail.len() - i,
{
    reveal(semantics::sum_tail);
    reveal(semantics::product);
    if i < tail.len() {
        assert(plain_term(tail[i as int]));
        let (operator, operand) = match tail[i as int] {
            AddOrSubtractView::Add(operand) => (Operator::Add, operand),
            AddOrSubtractView::Subtract(operand) => (Operator::Subtract, operand),
        };
        lemma_plain_product(operand, environment, scope, depth);
        match folded_product(operand) {
            Ok(right) => match applied(operator, left, right) {
                Ok(value) => {
                    lemma_plain_sum_tail(tail, i + 1, value, environment, scope, depth);
                },
                Err(_) => {},
            },
            Err(_) => {},
        }
    }
}

/// Evaluating a product of arithmetic on its own gives its fold and changes nothing.
pub proof fn lemma_plain_product(
    tree: ProductView,
    environment: EnvironmentView,
    scope: usize,
    depth: nat,
)
    requires
        plain_product(tree),
    ensures
        semantics::product(tree, environment, scope, depth) == untouched(
            folded_product(tree),
            environment,
        ),
    decreases tree, 0nat,
{
    reveal(semantics::product);
    reveal(semantics::product_tail);
    reveal(semantics::power);
    lemma_plain_power(tree.head, environment, scope, depth);
    match folded_power(tree.head) {
        Ok(value) => {
            lemma_plain_product_tail(tree.tail, 0, value, environment, scope, depth);
        },
        Err(_) => {},
    }
}

/// Evaluating the rest of a product of arithmetic on its own gives its fold and
/// changes nothing.
pub proof fn lemma_plain_product_tail(
    tail: Seq<MultiplyOrDivideView>,
    i: nat,
    left: Value,
    environment: EnvironmentView,
    scope: usize,
    depth: nat,
)
    requires
        forall|k: int| 0 <= k < tail.len() ==> plain_factor(#[trigger] tail[k]),
    ensures
        semantics::product_tail(tail, i, left, environment, scope, depth) == untouched(
            folded_product_tail(tail, i, left),
            environment,
        ),
    decreases tail, tail.len() - i,
{
    reveal(semantics::product_tail);
    reveal(semantics::power);
    if i < tail.len() {
        assert(plain_factor(tail[i as int]));
        let (operator, operand) = match tail[i as int] {
            MultiplyOrDivideView::Multiply(operand) => (Operator::Multiply, operand),
            MultiplyOrDivideView::Divide(operand) => (Operator::Divide, operand),
        };
        lemma_plain_power(operand, environment, scope, depth);
        match folded_power(operand) {
            Ok(right) => match applied(operator, left, right) {
                Ok(value) => {
                    lemma_plain_product_tail(tail, i + 1, value, environment, scope, depth);
                },
                Err(_) => {},
            },
            Err(_) => {},
        }
    }
}

/// Evaluating a power of arithmetic on its own gives its fold and changes nothing.
pub proof fn lemma_plain_power(
    tree: PowerView,
    environment: EnvironmentView,
    scope: usize,
    depth: nat,
)
    requires
        plain_power(tree),
    ensures
        semantics::power(tree, environment, scope, depth) == untouched(
            folded_power(tree),
            environment,
        ),
    decreases tree, 0nat,
{
    reveal(semantics::power);
    reveal(semantics::power_tail);
    reveal(semantics::primary);
    lemma_plain_primary(tree.head, environment, scope, depth);
    match folded_primary(tree.head) {
        Ok(value) => {
            lemma_plain_power_tail(tree.tail, 0, value, environment, scope, depth);
        },
        Err(_) => {},
    }
}

/// Evaluating the rest of a power of arithmetic on its own gives its fold and
/// changes nothing.
pub proof fn lemma_plain_power_tail(
    tail: Seq<PrimaryView>,
    i: nat,
    left: Value,
    environment: EnvironmentView,
    scope: usize,
    depth: nat,
)
    requires
        forall|k: int| 0 <= k < tail.len() ==> plain_primary(#[trigger] tail[k]),
    ensures
        semantics::power_tail(tail, i, left, environment, scope, depth) == untouched(
            folded_power_tail(tail, i, left),
            environment,
        ),
    decreases tail, tail.len() - i,
{
    reveal(semantics::power_tail);
    reveal(semantics::primary);
    if i < tail.len() {
        assert(plain_primary(tail[i as int]));
        lemma_plain_primary(tail[i as int], environment, scope, depth);
        match folded_primary(tail[i as int]) {
            Ok(right) => match applied(Operator::Power, left, right) {
                Ok(value) => {
                    lemma_plain_power_tail(tail, i + 1, value, environment, scope, depth);
                },
                Err(_) => {},
            },
            Err(_) => {},
        }
    }
}

/// Evaluating an operand of arithmetic on its own gives its fold and changes nothing.
pub proof fn lemma_plain_primary(
    tree: PrimaryView,
    environment: EnvironmentView,
    scope: usize,
    depth: nat,
)
    requires
        plain_primary(tree),
    ensures
        semantics::primary(tree, environment, scope, depth) == untouched(
            folded_primary(tree),
            environment,
        ),
    decreases tree, 0nat,
{
    reveal(semantics::primary);
    reveal(semantics::expression);
    match tree {
        PrimaryView::Grouping(inner) => {
            lemma_plain_expression(inner, environment, scope, depth);
        },
        _ => {},
    }
}

/// A source text that is one expression of arithmetic on its own evaluates
/// to the fold of that expression: parsing and then evaluating it is the
/// same as folding its operands directly.
pub proof fn lemma_arithmetic_evaluates_to_its_fold(source: Seq<char>, tree: ExpressionView)
    requires
        rules::program(scan_of(source), 0) == Ok::<ProgramView, crate::errors::syntactical::SyntacticalError>(
            ProgramView::Expressions(ListView { head: tree, tail: Seq::empty() }),
        ),
        plain_expression(tree),
    ensures
        meaning(source) == folded_expression(tree),
{
    reveal(semantics::block);
    reveal(semantics::block_tail);
    reveal(semantics::expression);
    lemma_plain_expression(
        tree,
        EnvironmentView::initial(),
        0,
        crate::runtime::interpret::DEPTH as nat,
    );
}

} // verus!
