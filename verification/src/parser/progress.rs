//! Every rule of the grammar takes at least one item, and none reads beyond
//! the items: what a rule returns ends behind the position that it began at
//! and not behind the last item.

use vstd::prelude::*;
use crate::grammar::view::{
    AddOrSubtractView,
    BoundView,
    ComparisonView,
    ExpressionView,
    ExpressionsView,
    MultiplyOrDivideView,
    NameView,
    PatternView,
    PrimaryView,
    SumView,
};
use crate::parser::rules::{
    arguments,
    arguments_tail,
    assignment,
    block,
    block_tail,
    bounds,
    call,
    call_tail,
    comparison,
    comparisons,
    epsilon,
    expect,
    expression,
    expressions,
    forward,
    function,
    grouping,
    inequality,
    kind_at,
    modulo,
    modulo_tail,
    name,
    name_at,
    comparator_at,
    parameters,
    parameters_tail,
    pattern,
    power,
    power_tail,
    primary,
    product,
    product_tail,
    sum,
    sum_tail,
    upper_bound,
    Parsed,
};
use crate::scanner::Scanned;
use crate::token::Kind;

verus! {

/// Whether `parsed`, if it is a tree, ends behind `from` and within `limit`.
pub open spec fn moves<T>(parsed: Parsed<T>, from: int, limit: nat) -> bool {
    parsed matches Ok((_, next)) ==> from < next <= limit
}

/// Whether `parsed`, if it is a list, ends at or behind `from` and within
/// `limit`.
pub open spec fn stays<T>(parsed: Parsed<T>, from: int, limit: nat) -> bool {
    parsed matches Ok((_, next)) ==> from <= next <= limit
}

/// What ends behind its beginning and within the items passes
/// [`forward`] as it is.
pub proof fn lemma_forward_keeps<T>(parsed: Parsed<T>, from: int, limit: nat)
    requires
        moves(parsed, from, limit),
    ensures
        forward(parsed, from, limit) == parsed,
{
}

/// A sequence of expressions ends at or behind its beginning and within the items.
pub proof fn lemma_expressions_stays(items: Seq<Scanned>, at: int, seen: Seq<ExpressionView>)
    requires
        0 <= at <= items.len(),
    ensures
        stays(expressions(items, at, seen), at, items.len()),
    decreases items.len() - at, 10nat,
{
    reveal(expressions);
    reveal(expression);
    if 0 <= at < items.len() {
        match forward(expression(items, at), at, items.len()) {
            Ok((item, next)) => {
                lemma_expressions_stays(items, next, seen.push(item));
            },
            Err(_) => {},
        }
    }
}

/// A sequence of comparisons ends at or behind its beginning and within the items.
pub proof fn lemma_comparisons_stays(items: Seq<Scanned>, at: int, seen: Seq<ComparisonView>)
    requires
        0 <= at <= items.len(),
    ensures
        stays(comparisons(items, at, seen), at, items.len()),
    decreases items.len() - at, 10nat,
{
    reveal(comparisons);
    reveal(comparison);
    if 0 <= at < items.len() {
        match forward(comparison(items, at), at, items.len()) {
            Ok((item, next)) => {
                lemma_comparisons_stays(items, next, seen.push(item));
            },
            Err(_) => {},
        }
    }
}

/// A comparison takes at least one item and none beyond the last.
pub proof fn lemma_comparison_moves(items: Seq<Scanned>, at: int)
    requires
        0 <= at <= items.len(),
    ensures
        moves(comparison(items, at), at, items.len()),
    decreases items.len() - at, 10nat,
{
    reveal(comparison);
    reveal(expression);
    if comparator_at(items, at) {
        lemma_expression_moves(items, at + 1);
    }
}

/// An expression takes at least one item and none beyond the last.
pub proof fn lemma_expression_moves(items: Seq<Scanned>, at: int)
    requires
        0 <= at <= items.len(),
    ensures
        moves(expression(items, at), at, items.len()),
    decreases items.len() - at, 9nat,
{
    reveal(expression);
    reveal(assignment);
    reveal(epsilon);
    if name_at(items, at) {
        lemma_assignment_moves(items, at);
    } else {
        lemma_epsilon_moves(items, at);
    }
}

/// A definition takes at least one item and none beyond the last.
pub proof fn lemma_assignment_moves(items: Seq<Scanned>, at: int)
    requires
        0 <= at <= items.len(),
    ensures
        moves(assignment(items, at), at, items.len()),
    decreases items.len() - at, 8nat,
{
    reveal(assignment);
    reveal(function);
    reveal(block);
    match forward(function(items, at), at, items.len()) {
        Ok((_, next)) => match expect(items, next, Kind::Equal) {
            Ok(body_start) => {
                lemma_block_moves(items, body_start);
            },
            Err(_) => {},
        },
        Err(_) => {},
    }
}

/// A block takes at least one item and none beyond the last.
pub proof fn lemma_block_moves(items: Seq<Scanned>, at: int)
    requires
        0 <= at <= items.len(),
    ensures
        moves(block(items, at), at, items.len()),
    decreases items.len() - at, 10nat,
{
    reveal(block);
    reveal(block_tail);
    reveal(expression);
    if kind_at(items, at) == Some(Kind::LeftBracket) {
        match forward(expression(items, at + 1), at + 1, items.len()) {
            Ok((_, next)) => {
                lemma_block_tail_stays(items, next, Seq::empty());
            },
            Err(_) => {},
        }
    } else {
        lemma_expression_moves(items, at);
    }
}

/// The rest of a block ends at or behind its beginning and within the items.
pub proof fn lemma_block_tail_stays(items: Seq<Scanned>, at: int, seen: Seq<ExpressionView>)
    requires
        0 <= at <= items.len(),
    ensures
        stays(block_tail(items, at, seen), at, items.len()),
    decreases items.len() - at, 10nat,
{
    reveal(block_tail);
    reveal(expression);
    if kind_at(items, at) != Some(Kind::RightBracket) && 0 <= at < items.len() {
        match forward(expression(items, at), at, items.len()) {
            Ok((item, next)) => {
                lemma_block_tail_stays(items, next, seen.push(item));
            },
            Err(_) => {},
        }
    }
}

/// A function takes at least one item and none beyond the last.
pub proof fn lemma_function_moves(items: Seq<Scanned>, at: int)
    requires
        0 <= at <= items.len(),
    ensures
        moves(function(items, at), at, items.len()),
    decreases items.len() - at, 7nat,
{
    reveal(function);
    reveal(parameters);

}

/// A list of parameters takes at least one item and none beyond the last.
pub proof fn lemma_parameters_moves(items: Seq<Scanned>, at: int)
    requires
        0 <= at <= items.len(),
    ensures
        moves(parameters(items, at), at, items.len()),
    decreases items.len() - at, 11nat,
{
    reveal(parameters);
    reveal(pattern);
    reveal(parameters_tail);
    match forward(pattern(items, at), at, items.len()) {
        Ok((_, next)) => {
            lemma_parameters_tail_stays(items, next, Seq::empty());
        },
        Err(_) => {},
    }
}

/// The rest of a list of parameters ends at or behind its beginning and within the items.
pub proof fn lemma_parameters_tail_stays(items: Seq<Scanned>, at: int, seen: Seq<PatternView>)
    requires
        0 <= at <= items.len(),
    ensures
        stays(parameters_tail(items, at, seen), at, items.len()),
    decreases items.len() - at, 11nat,
{
    reveal(parameters_tail);
    reveal(pattern);
    if kind_at(items, at) == Some(Kind::Comma) {
        match forward(pattern(items, at + 1), at + 1, items.len()) {
            Ok((operand, next)) => {
                lemma_parameters_tail_stays(items, next, seen.push(operand));
            },
            Err(_) => {},
        }
    }
}

/// A pattern takes at least one item and none beyond the last.
pub proof fn lemma_pattern_moves(items: Seq<Scanned>, at: int)
    requires
        0 <= at <= items.len(),
    ensures
        moves(pattern(items, at), at, items.len()),
    decreases items.len() - at, 10nat,
{
    reveal(pattern);
    reveal(function);
    reveal(epsilon);
    reveal(bounds);
    if name_at(items, at) {
        match forward(function(items, at), at, items.len()) {
            Ok((shape, next)) => {
                if shape.parameters is None && comparator_at(items, next) {
                    lemma_epsilon_moves(items, next + 1);
                }
            },
            Err(_) => {},
        }
    } else {
        lemma_bounds_moves(items, at);
    }
}

/// The bounds of a parameter takes at least one item and none beyond the last.
pub proof fn lemma_bounds_moves(items: Seq<Scanned>, at: int)
    requires
        0 <= at <= items.len(),
    ensures
        moves(bounds(items, at), at, items.len()),
    decreases items.len() - at, 9nat,
{
    reveal(bounds);
    reveal(epsilon);
    reveal(upper_bound);
    match forward(epsilon(items, at), at, items.len()) {
        Ok((lower, next)) => match inequality(items, next) {
            Ok((left, name_start)) => match forward(name(items, name_start), name_start, items.len()) {
                Ok((bound, name_end)) => {
                    lemma_upper_bound_moves(
                        items,
                        name_end,
                        BoundView {
                            constraint: ExpressionView::Arithmetic(Box::new(lower)),
                            inequality: left,
                        },
                        bound,
                    );
                },
                Err(_) => {},
            },
            Err(_) => {},
        },
        Err(_) => {},
    }
}

/// The upper bound of a parameter takes at least one item and none beyond the last.
pub proof fn lemma_upper_bound_moves(items: Seq<Scanned>, at: int, left: BoundView, bound: NameView)
    requires
        0 <= at <= items.len(),
    ensures
        moves(upper_bound(items, at, left, bound), at, items.len()),
    decreases items.len() - at, 9nat,
{
    reveal(upper_bound);
    reveal(epsilon);
    match inequality(items, at) {
        Ok((_, upper_start)) => {
            lemma_epsilon_moves(items, upper_start);
        },
        Err(_) => {},
    }
}

/// An approximation takes at least one item and none beyond the last.
pub proof fn lemma_epsilon_moves(items: Seq<Scanned>, at: int)
    requires
        0 <= at <= items.len(),
    ensures
        moves(epsilon(items, at), at, items.len()),
    decreases items.len() - at, 6nat,
{
    reveal(epsilon);
    reveal(modulo);
    match forward(modulo(items, at), at, items.len()) {
        Ok((_, next)) => {
            if kind_at(items, next) == Some(Kind::Tilde) {
                lemma_modulo_moves(items, next + 1);
            }
        },
        Err(_) => {},
    }
}

/// A chain of remainders takes at least one item and none beyond the last.
pub proof fn lemma_modulo_moves(items: Seq<Scanned>, at: int)
    requires
        0 <= at <= items.len(),
    ensures
        moves(modulo(items, at), at, items.len()),
    decreases items.len() - at, 5nat,
{
    reveal(modulo);
    reveal(sum);
    reveal(modulo_tail);
    match forward(sum(items, at), at, items.len()) {
        Ok((_, next)) => {
            lemma_modulo_tail_stays(items, next, Seq::empty());
        },
        Err(_) => {},
    }
}

/// The rest of a chain of remainders ends at or behind its beginning and within the items.
pub proof fn lemma_modulo_tail_stays(items: Seq<Scanned>, at: int, seen: Seq<SumView>)
    requires
        0 <= at <= items.len(),
    ensures
        stays(modulo_tail(items, at, seen), at, items.len()),
    decreases items.len() - at, 5nat,
{
    reveal(modulo_tail);
    reveal(sum);
    if kind_at(items, at) == Some(Kind::Percent) {
        match forward(sum(items, at + 1), at + 1, items.len()) {
            Ok((operand, next)) => {
                lemma_modulo_tail_stays(items, next, seen.push(operand));
            },
            Err(_) => {},
        }
    }
}

/// A sum takes at least one item and none beyond the last.
pub proof fn lemma_sum_moves(items: Seq<Scanned>, at: int)
    requires
        0 <= at <= items.len(),
    ensures
        moves(sum(items, at), at, items.len()),
    decreases items.len() - at, 4nat,
{
    reveal(sum);
    reveal(product);
    reveal(sum_tail);
    match forward(product(items, at), at, items.len()) {
        Ok((_, next)) => {
            lemma_sum_tail_stays(items, next, Seq::empty());
        },
        Err(_) => {},
    }
}

/// The rest of a sum ends at or behind its beginning and within the items.
pub proof fn lemma_sum_tail_stays(items: Seq<Scanned>, at: int, seen: Seq<AddOrSubtractView>)
    requires
        0 <= at <= items.len(),
    ensures
        stays(sum_tail(items, at, seen), at, items.len()),
    decreases items.len() - at, 4nat,
{
    reveal(sum_tail);
    reveal(product);
    if kind_at(items, at) == Some(Kind::Plus) || kind_at(items, at) == Some(Kind::Minus) {
        match forward(product(items, at + 1), at + 1, items.len()) {
            Ok((operand, next)) => {
                lemma_sum_tail_stays(items, next, seen.push(
                    if kind_at(items, at) == Some(Kind::Plus) {
                        AddOrSubtractView::Add(operand)
                    } else {
                        AddOrSubtractView::Subtract(operand)
                    },
                ));
            },
            Err(_) => {},
        }
    }
}

/// A product takes at least one item and none beyond the last.
pub proof fn lemma_product_moves(items: Seq<Scanned>, at: int)
    requires
        0 <= at <= items.len(),
    ensures
        moves(product(items, at), at, items.len()),
    decreases items.len() - at, 3nat,
{
    reveal(product);
    reveal(power);
    reveal(product_tail);
    match forward(power(items, at), at, items.len()) {
        Ok((_, next)) => {
            lemma_product_tail_stays(items, next, Seq::empty());
        },
        Err(_) => {},
    }
}

/// The rest of a product ends at or behind its beginning and within the items.
pub proof fn lemma_product_tail_stays(items: Seq<Scanned>, at: int, seen: Seq<MultiplyOrDivideView>)
    requires
        0 <= at <= items.len(),
    ensures
        stays(product_tail(items, at, seen), at, items.len()),
    decreases items.len() - at, 3nat,
{
    reveal(product_tail);
    reveal(power);
    if kind_at(items, at) == Some(Kind::Star) || kind_at(items, at) == Some(Kind::Slash) {
        match forward(power(items, at + 1), at + 1, items.len()) {
            Ok((operand, next)) => {
                lemma_product_tail_stays(items, next, seen.push(
                    if kind_at(items, at) == Some(Kind::Star) {
                        MultiplyOrDivideView::Multiply(operand)
                    } else {
                        MultiplyOrDivideView::Divide(operand)
                    },
                ));
            },
            Err(_) => {},
        }
    }
}

/// A power takes at least one item and none beyond the last.
pub proof fn lemma_power_moves(items: Seq<Scanned>, at: int)
    requires
        0 <= at <= items.len(),
    ensures
        moves(power(items, at), at, items.len()),
    decreases items.len() - at, 2nat,
{
    reveal(power);
    reveal(primary);
    reveal(power_tail);
    match forward(primary(items, at), at, items.len()) {
        Ok((_, next)) => {
            lemma_power_tail_stays(items, next, Seq::empty());
        },
        Err(_) => {},
    }
}

/// The rest of a power ends at or behind its beginning and within the items.
pub proof fn lemma_power_tail_stays(items: Seq<Scanned>, at: int, seen: Seq<PrimaryView>)
    requires
        0 <= at <= items.len(),
    ensures
        stays(power_tail(items, at, seen), at, items.len()),
    decreases items.len() - at, 2nat,
{
    reveal(power_tail);
    reveal(primary);
    if kind_at(items, at) == Some(Kind::Caret) {
        match forward(primary(items, at + 1), at + 1, items.len()) {
            Ok((operand, next)) => {
                lemma_power_tail_stays(items, next, seen.push(operand));
            },
            Err(_) => {},
        }
    }
}

/// An operand takes at least one item and none beyond the last.
pub proof fn lemma_primary_moves(items: Seq<Scanned>, at: int)
    requires
        0 <= at <= items.len(),
    ensures
        moves(primary(items, at), at, items.len()),
    decreases items.len() - at, 1nat,
{
    reveal(primary);
    reveal(call);
    reveal(grouping);
    if kind_at(items, at) == Some(Kind::Minus) || kind_at(items, at) == Some(Kind::Number) {
    } else if kind_at(items, at) == Some(Kind::Identifier) {
        lemma_call_moves(items, at);
    } else if kind_at(items, at) == Some(Kind::LeftParenthesis) {
        lemma_grouping_moves(items, at);
    }
}

/// A call takes at least one item and none beyond the last.
pub proof fn lemma_call_moves(items: Seq<Scanned>, at: int)
    requires
        0 <= at <= items.len(),
    ensures
        moves(call(items, at), at, items.len()),
    decreases items.len() - at, 0nat,
{
    reveal(call);
    reveal(call_tail);
    if kind_at(items, at) == Some(Kind::Identifier) {
        lemma_call_tail_stays(items, at + 1, Seq::empty());
    }
}

/// The rest of a call ends at or behind its beginning and within the items.
pub proof fn lemma_call_tail_stays(items: Seq<Scanned>, at: int, seen: Seq<ExpressionsView>)
    requires
        0 <= at <= items.len(),
    ensures
        stays(call_tail(items, at, seen), at, items.len()),
    decreases items.len() - at, 11nat,
{
    reveal(call_tail);
    reveal(arguments);
    let list = arguments(items, at + 1);
    if kind_at(items, at) == Some(Kind::LeftParenthesis) && list is Ok {
        let close = list->Ok_0.1;
        if at + 1 < close <= items.len() && kind_at(items, close) == Some(Kind::RightParenthesis) {
            lemma_call_tail_stays(items, close + 1, seen.push(list->Ok_0.0));
        }
    }
}

/// A list of arguments takes at least one item and none beyond the last.
pub proof fn lemma_arguments_moves(items: Seq<Scanned>, at: int)
    requires
        0 <= at <= items.len(),
    ensures
        moves(arguments(items, at), at, items.len()),
    decreases items.len() - at, 10nat,
{
    reveal(arguments);
    reveal(expression);
    reveal(arguments_tail);
    match forward(expression(items, at), at, items.len()) {
        Ok((_, next)) => {
            lemma_arguments_tail_stays(items, next, Seq::empty());
        },
        Err(_) => {},
    }
}

/// The rest of a list of arguments ends at or behind its beginning and within the items.
pub proof fn lemma_arguments_tail_stays(items: Seq<Scanned>, at: int, seen: Seq<ExpressionView>)
    requires
        0 <= at <= items.len(),
    ensures
        stays(arguments_tail(items, at, seen), at, items.len()),
    decreases items.len() - at, 10nat,
{
    reveal(arguments_tail);
    reveal(expression);
    if kind_at(items, at) == Some(Kind::Comma) {
        match forward(expression(items, at + 1), at + 1, items.len()) {
            Ok((operand, next)) => {
                lemma_arguments_tail_stays(items, next, seen.push(operand));
            },
            Err(_) => {},
        }
    }
}

/// A grouping takes at least one item and none beyond the last.
pub proof fn lemma_grouping_moves(items: Seq<Scanned>, at: int)
    requires
        0 <= at <= items.len(),
    ensures
        moves(grouping(items, at), at, items.len()),
    decreases items.len() - at, 0nat,
{
    reveal(grouping);
    reveal(expression);
    if kind_at(items, at) == Some(Kind::LeftParenthesis) {
        lemma_expression_moves(items, at + 1);
    }
}

} // verus!
