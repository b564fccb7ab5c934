//! The grammar, as functions from a sequence of scanned items and a position
//! in it to a tree and the position behind it.
//!
//! Each rule of the grammar has one function here. A rule that binds tighter
//! is called by the one that binds looser, so the shape of the calls fixes
//! precedence, and every operator associates to the left.

use vstd::prelude::*;
use crate::errors::syntactical::SyntacticalError;
use crate::grammar::assignment::Inequality;
use crate::grammar::comparison::Comparator;
use crate::grammar::list::ListView;
use crate::grammar::view::{
    AddOrSubtractView,
    AssignmentView,
    BoundView,
    BoundsView,
    CallView,
    ComparisonView,
    ComparisonsView,
    EpsilonView,
    ExpressionView,
    ExpressionsView,
    FunctionView,
    ModuloView,
    MultiplyOrDivideView,
    NameView,
    NumberView,
    ParametersView,
    PatternView,
    PowerView,
    PrimaryView,
    ProductView,
    ProgramView,
    RefinementView,
    SumView,
};
use crate::lexeme::LexemeView;
use crate::scanner::Scanned;
use crate::token::Kind;

verus! {

/// What a rule makes of the items from some position on: a tree and the
/// position behind the items that it took, or an error.
pub type Parsed<T> = Result<(T, int), SyntacticalError>;

/// The kind of the token at `at`; `None` at the end of the items and where the
/// scanner reported an error.
pub open spec fn kind_at(items: Seq<Scanned>, at: int) -> Option<Kind> {
    if 0 <= at < items.len() {
        match items[at] {
            Ok(token) => Some(token.kind),
            Err(_) => None,
        }
    } else {
        None
    }
}

/// The lexeme of the item at `at`.
pub open spec fn lexeme_at(items: Seq<Scanned>, at: int) -> LexemeView {
    match items[at] {
        Ok(token) => token.lexeme,
        Err(error) => error.lexeme,
    }
}

/// The error for an item at `at` that the grammar does not allow there:
/// `Incomplete` at the end of the items, `NoMatch` before it.
pub open spec fn mismatch(items: Seq<Scanned>, at: int) -> SyntacticalError {
    if 0 <= at < items.len() {
        SyntacticalError::NoMatch
    } else {
        SyntacticalError::Incomplete
    }
}

/// Takes the token at `at` if it is of kind `kind`.
pub open spec fn expect(items: Seq<Scanned>, at: int, kind: Kind) -> Result<
    int,
    SyntacticalError,
> {
    if kind_at(items, at) == Some(kind) {
        Ok(at + 1)
    } else {
        Err(mismatch(items, at))
    }
}

/// `parsed`, as long as it ends behind `from` and within `limit`. Every rule
/// takes at least one item, so this changes nothing that a rule returns.
pub open spec fn forward<T>(parsed: Parsed<T>, from: int, limit: nat) -> Parsed<T> {
    match parsed {
        Ok((tree, next)) => if from < next <= limit {
            Ok((tree, next))
        } else {
            Err(SyntacticalError::NoMatch)
        },
        Err(error) => Err(error),
    }
}

/// The comparator that a token of kind `kind` stands for.
pub open spec fn comparator_of(kind: Kind) -> Option<Comparator> {
    match kind {
        Kind::LessThan => Some(Comparator::LessThan),
        Kind::GreaterThan => Some(Comparator::GreaterThan),
        Kind::LessThanOrEqualTo => Some(Comparator::LessThanOrEqualTo),
        Kind::GreaterThanOrEqualTo => Some(Comparator::GreaterThanOrEqualTo),
        Kind::Equal => Some(Comparator::EqualTo),
        Kind::NotEqual => Some(Comparator::NotEqualTo),
        _ => None,
    }
}

/// The inequality that a token of kind `kind` stands for.
pub open spec fn inequality_of(kind: Kind) -> Option<Inequality> {
    match kind {
        Kind::LessThan => Some(Inequality::LessThan),
        Kind::GreaterThan => Some(Inequality::GreaterThan),
        Kind::LessThanOrEqualTo => Some(Inequality::LessThanOrEqualTo),
        Kind::GreaterThanOrEqualTo => Some(Inequality::GreaterThanOrEqualTo),
        _ => None,
    }
}

/// Whether a comparator stands at `at`.
pub open spec fn comparator_at(items: Seq<Scanned>, at: int) -> bool {
    kind_at(items, at) is Some && comparator_of(kind_at(items, at)->0) is Some
}

/// Whether a name begins at `at`, and with it a definition.
pub open spec fn name_at(items: Seq<Scanned>, at: int) -> bool {
    kind_at(items, at) == Some(Kind::At) || kind_at(items, at) == Some(Kind::Underscore)
}

/// program → expression+ EOF | expression comparison+ EOF ;
pub open spec fn program(items: Seq<Scanned>, at: int) -> Result<ProgramView, SyntacticalError> {
    match forward(expression(items, at), at, items.len()) {
        Err(error) => Err(error),
        Ok((first, next)) => if comparator_at(items, next) {
            match forward(comparison(items, next), next, items.len()) {
                Err(error) => Err(error),
                Ok((head, rest)) => match comparisons(items, rest, Seq::empty()) {
                    Err(error) => Err(error),
                    Ok((tail, _)) => Ok(
                        ProgramView::Comparisons(
                            ComparisonsView { lhs: first, comparisons: ListView { head, tail } },
                        ),
                    ),
                },
            }
        } else {
            match expressions(items, next, Seq::empty()) {
                Err(error) => Err(error),
                Ok((tail, _)) => Ok(ProgramView::Expressions(ListView { head: first, tail })),
            }
        },
    }
}

/// The expressions from `at` to the end of the items, behind `seen`.
#[verifier::opaque]
pub open spec fn expressions(items: Seq<Scanned>, at: int, seen: Seq<ExpressionView>) -> Parsed<
    Seq<ExpressionView>,
>
    decreases items.len() - at, 10nat,
{
    if 0 <= at < items.len() {
        match forward(expression(items, at), at, items.len()) {
            Err(error) => Err(error),
            Ok((next_expression, next)) => expressions(items, next, seen.push(next_expression)),
        }
    } else {
        Ok((seen, at))
    }
}

/// The comparisons from `at` to the end of the items, behind `seen`.
#[verifier::opaque]
pub open spec fn comparisons(items: Seq<Scanned>, at: int, seen: Seq<ComparisonView>) -> Parsed<
    Seq<ComparisonView>,
>
    decreases items.len() - at, 10nat,
{
    if 0 <= at < items.len() {
        match forward(comparison(items, at), at, items.len()) {
            Err(error) => Err(error),
            Ok((next_comparison, next)) => comparisons(items, next, seen.push(next_comparison)),
        }
    } else {
        Ok((seen, at))
    }
}

/// comparison → comparator expression ;
#[verifier::opaque]
pub open spec fn comparison(items: Seq<Scanned>, at: int) -> Parsed<ComparisonView>
    decreases items.len() - at, 10nat,
{
    if comparator_at(items, at) {
        match expression(items, at + 1) {
            Err(error) => Err(error),
            Ok((rhs, next)) => Ok(
                (ComparisonView { comparator: comparator_of(kind_at(items, at)->0)->0, rhs }, next),
            ),
        }
    } else {
        Err(mismatch(items, at))
    }
}

/// expression → assignment | arithmetic ;
#[verifier::opaque]
pub open spec fn expression(items: Seq<Scanned>, at: int) -> Parsed<ExpressionView>
    decreases items.len() - at, 9nat,
{
    if name_at(items, at) {
        match assignment(items, at) {
            Err(error) => Err(error),
            Ok((definition, next)) => Ok((ExpressionView::Assignment(Box::new(definition)), next)),
        }
    } else {
        match epsilon(items, at) {
            Err(error) => Err(error),
            Ok((arithmetic, next)) => Ok((ExpressionView::Arithmetic(Box::new(arithmetic)), next)),
        }
    }
}

/// assignment → function "=" block ;
#[verifier::opaque]
pub open spec fn assignment(items: Seq<Scanned>, at: int) -> Parsed<AssignmentView>
    decreases items.len() - at, 8nat,
{
    match forward(function(items, at), at, items.len()) {
        Err(error) => Err(error),
        Ok((signature, next)) => match expect(items, next, Kind::Equal) {
            Err(error) => Err(error),
            Ok(body_start) => match block(items, body_start) {
                Err(error) => Err(error),
                Ok((body, end)) => Ok((AssignmentView { function: signature, block: body }, end)),
            },
        },
    }
}

/// block → expression | "[" expression+ "]" ;
#[verifier::opaque]
pub open spec fn block(items: Seq<Scanned>, at: int) -> Parsed<ExpressionsView>
    decreases items.len() - at, 10nat,
{
    if kind_at(items, at) == Some(Kind::LeftBracket) {
        match forward(expression(items, at + 1), at + 1, items.len()) {
            Err(error) => Err(error),
            Ok((head, next)) => match block_tail(items, next, Seq::empty()) {
                Err(error) => Err(error),
                Ok((tail, end)) => Ok((ListView { head, tail }, end)),
            },
        }
    } else {
        match expression(items, at) {
            Err(error) => Err(error),
            Ok((head, next)) => Ok((ListView { head, tail: Seq::empty() }, next)),
        }
    }
}

/// The expressions from `at` to the bracket that closes a block, behind
/// `seen`, and the bracket.
#[verifier::opaque]
pub open spec fn block_tail(items: Seq<Scanned>, at: int, seen: Seq<ExpressionView>) -> Parsed<
    Seq<ExpressionView>,
>
    decreases items.len() - at, 10nat,
{
    if kind_at(items, at) == Some(Kind::RightBracket) {
        Ok((seen, at + 1))
    } else if 0 <= at < items.len() {
        match forward(expression(items, at), at, items.len()) {
            Err(error) => Err(error),
            Ok((next_expression, next)) => block_tail(items, next, seen.push(next_expression)),
        }
    } else {
        Err(SyntacticalError::Incomplete)
    }
}

/// function → name ( "(" parameters ")" )? ;
#[verifier::opaque]
pub open spec fn function(items: Seq<Scanned>, at: int) -> Parsed<FunctionView>
    decreases items.len() - at, 7nat,
{
    match forward(name(items, at), at, items.len()) {
        Err(error) => Err(error),
        Ok((name, next)) => if kind_at(items, next) == Some(Kind::LeftParenthesis) {
            match forward(parameters(items, next + 1), next + 1, items.len()) {
                Err(error) => Err(error),
                Ok((list, close)) => match expect(items, close, Kind::RightParenthesis) {
                    Err(error) => Err(error),
                    Ok(end) => Ok((FunctionView { name, parameters: Some(list) }, end)),
                },
            }
        } else {
            Ok((FunctionView { name, parameters: None }, next))
        },
    }
}

/// name → "_" | "@" IDENTIFIER ;
pub open spec fn name(items: Seq<Scanned>, at: int) -> Parsed<NameView> {
    if kind_at(items, at) == Some(Kind::Underscore) {
        Ok((NameView::Anonymous, at + 1))
    } else if kind_at(items, at) == Some(Kind::At) {
        match expect(items, at + 1, Kind::Identifier) {
            Err(error) => Err(error),
            Ok(end) => Ok((NameView::Identified(lexeme_at(items, at + 1)), end)),
        }
    } else {
        Err(mismatch(items, at))
    }
}

/// parameters → pattern ( "," pattern )* ;
#[verifier::opaque]
pub open spec fn parameters(items: Seq<Scanned>, at: int) -> Parsed<ParametersView>
    decreases items.len() - at, 11nat,
{
    match forward(pattern(items, at), at, items.len()) {
        Err(error) => Err(error),
        Ok((head, next)) => match parameters_tail(items, next, Seq::empty()) {
            Err(error) => Err(error),
            Ok((tail, end)) => Ok((ListView { head, tail }, end)),
        },
    }
}

/// The patterns that follow commas from `at` on, behind `seen`.
#[verifier::opaque]
pub open spec fn parameters_tail(items: Seq<Scanned>, at: int, seen: Seq<PatternView>) -> Parsed<
    Seq<PatternView>,
>
    decreases items.len() - at, 11nat,
{
    if kind_at(items, at) == Some(Kind::Comma) {
        match forward(pattern(items, at + 1), at + 1, items.len()) {
            Err(error) => Err(error),
            Ok((next_pattern, next)) => parameters_tail(items, next, seen.push(next_pattern)),
        }
    } else {
        Ok((seen, at))
    }
}

/// pattern → function | refinement | bounds ;
///
/// refinement → name comparator arithmetic ;
#[verifier::opaque]
pub open spec fn pattern(items: Seq<Scanned>, at: int) -> Parsed<PatternView>
    decreases items.len() - at, 10nat,
{
    if name_at(items, at) {
        match forward(function(items, at), at, items.len()) {
            Err(error) => Err(error),
            Ok((shape, next)) => if shape.parameters is None && comparator_at(items, next) {
                match epsilon(items, next + 1) {
                    Err(error) => Err(error),
                    Ok((constraint, end)) => Ok(
                        (
                            PatternView::Refinement(
                                RefinementView {
                                    name: shape.name,
                                    comparator: comparator_of(kind_at(items, next)->0)->0,
                                    constraint: ExpressionView::Arithmetic(Box::new(constraint)),
                                },
                            ),
                            end,
                        ),
                    ),
                }
            } else {
                Ok((PatternView::Function(Box::new(shape)), next))
            },
        }
    } else {
        match bounds(items, at) {
            Err(error) => Err(error),
            Ok((limits, end)) => Ok((PatternView::Bounds(limits), end)),
        }
    }
}

/// Takes the inequality at `at`.
pub open spec fn inequality(items: Seq<Scanned>, at: int) -> Parsed<Inequality> {
    if kind_at(items, at) is Some && inequality_of(kind_at(items, at)->0) is Some {
        Ok((inequality_of(kind_at(items, at)->0)->0, at + 1))
    } else {
        Err(mismatch(items, at))
    }
}

/// bounds → arithmetic inequality name inequality arithmetic ;
#[verifier::opaque]
pub open spec fn bounds(items: Seq<Scanned>, at: int) -> Parsed<BoundsView>
    decreases items.len() - at, 9nat,
{
    match forward(epsilon(items, at), at, items.len()) {
        Err(error) => Err(error),
        Ok((lower, next)) => match inequality(items, next) {
            Err(error) => Err(error),
            Ok((left, name_start)) => match forward(
                name(items, name_start),
                name_start,
                items.len(),
            ) {
                Err(error) => Err(error),
                Ok((name, name_end)) => upper_bound(
                    items,
                    name_end,
                    BoundView {
                        constraint: ExpressionView::Arithmetic(Box::new(lower)),
                        inequality: left,
                    },
                    name,
                ),
            },
        },
    }
}

/// The second half of the rule `bounds`, from the inequality behind the name
/// on.
#[verifier::opaque]
pub open spec fn upper_bound(items: Seq<Scanned>, at: int, left: BoundView, name: NameView) -> Parsed<
    BoundsView,
>
    decreases items.len() - at, 9nat,
{
    match inequality(items, at) {
        Err(error) => Err(error),
        Ok((right, upper_start)) => match epsilon(items, upper_start) {
            Err(error) => Err(error),
            Ok((upper, end)) => Ok(
                (
                    BoundsView {
                        left,
                        name,
                        right: BoundView {
                            constraint: ExpressionView::Arithmetic(Box::new(upper)),
                            inequality: right,
                        },
                    },
                    end,
                ),
            ),
        },
    }
}

/// epsilon → modulo ( "~" modulo )? ;
#[verifier::opaque]
pub open spec fn epsilon(items: Seq<Scanned>, at: int) -> Parsed<EpsilonView>
    decreases items.len() - at, 6nat,
{
    match forward(modulo(items, at), at, items.len()) {
        Err(error) => Err(error),
        Ok((lhs, next)) => if kind_at(items, next) == Some(Kind::Tilde) {
            match modulo(items, next + 1) {
                Err(error) => Err(error),
                Ok((rhs, end)) => Ok((EpsilonView { lhs, rhs: Some(rhs) }, end)),
            }
        } else {
            Ok((EpsilonView { lhs, rhs: None }, next))
        },
    }
}

/// modulo → sum ( "%" sum )* ;
#[verifier::opaque]
pub open spec fn modulo(items: Seq<Scanned>, at: int) -> Parsed<ModuloView>
    decreases items.len() - at, 5nat,
{
    match forward(sum(items, at), at, items.len()) {
        Err(error) => Err(error),
        Ok((head, next)) => match modulo_tail(items, next, Seq::empty()) {
            Err(error) => Err(error),
            Ok((tail, end)) => Ok((ListView { head, tail }, end)),
        },
    }
}

/// The operands that follow `%` from `at` on, behind `seen`.
#[verifier::opaque]
pub open spec fn modulo_tail(items: Seq<Scanned>, at: int, seen: Seq<SumView>) -> Parsed<
    Seq<SumView>,
>
    decreases items.len() - at, 5nat,
{
    if kind_at(items, at) == Some(Kind::Percent) {
        match forward(sum(items, at + 1), at + 1, items.len()) {
            Err(error) => Err(error),
            Ok((operand, next)) => modulo_tail(items, next, seen.push(operand)),
        }
    } else {
        Ok((seen, at))
    }
}

/// sum → product ( ( "+" | "-" ) product )* ;
#[verifier::opaque]
pub open spec fn sum(items: Seq<Scanned>, at: int) -> Parsed<SumView>
    decreases items.len() - at, 4nat,
{
    match forward(product(items, at), at, items.len()) {
        Err(error) => Err(error),
        Ok((head, next)) => match sum_tail(items, next, Seq::empty()) {
            Err(error) => Err(error),
            Ok((tail, end)) => Ok((ListView { head, tail }, end)),
        },
    }
}

/// The operators `+` and `-` from `at` on, each with its operand, behind
/// `seen`.
#[verifier::opaque]
pub open spec fn sum_tail(items: Seq<Scanned>, at: int, seen: Seq<AddOrSubtractView>) -> Parsed<
    Seq<AddOrSubtractView>,
>
    decreases items.len() - at, 4nat,
{
    if kind_at(items, at) == Some(Kind::Plus) || kind_at(items, at) == Some(Kind::Minus) {
        match forward(product(items, at + 1), at + 1, items.len()) {
            Err(error) => Err(error),
            Ok((operand, next)) => sum_tail(
                items,
                next,
                seen.push(
                    if kind_at(items, at) == Some(Kind::Plus) {
                        AddOrSubtractView::Add(operand)
                    } else {
                        AddOrSubtractView::Subtract(operand)
                    },
                ),
            ),
        }
    } else {
        Ok((seen, at))
    }
}

/// product → power ( ( "*" | "/" ) power )* ;
#[verifier::opaque]
pub open spec fn product(items: Seq<Scanned>, at: int) -> Parsed<ProductView>
    decreases items.len() - at, 3nat,
{
    match forward(power(items, at), at, items.len()) {
        Err(error) => Err(error),
        Ok((head, next)) => match product_tail(items, next, Seq::empty()) {
            Err(error) => Err(error),
            Ok((tail, end)) => Ok((ListView { head, tail }, end)),
        },
    }
}

/// The operators `*` and `/` from `at` on, each with its operand, behind
/// `seen`.
#[verifier::opaque]
pub open spec fn product_tail(
    items: Seq<Scanned>,
    at: int,
    seen: Seq<MultiplyOrDivideView>,
) -> Parsed<Seq<MultiplyOrDivideView>>
    decreases items.len() - at, 3nat,
{
    if kind_at(items, at) == Some(Kind::Star) || kind_at(items, at) == Some(Kind::Slash) {
        match forward(power(items, at + 1), at + 1, items.len()) {
            Err(error) => Err(error),
            Ok((operand, next)) => product_tail(
                items,
                next,
                seen.push(
                    if kind_at(items, at) == Some(Kind::Star) {
                        MultiplyOrDivideView::Multiply(operand)
                    } else {
                        MultiplyOrDivideView::Divide(operand)
                    },
                ),
            ),
        }
    } else {
        Ok((seen, at))
    }
}

/// power → primary ( "^" primary )* ;
#[verifier::opaque]
pub open spec fn power(items: Seq<Scanned>, at: int) -> Parsed<PowerView>
    decreases items.len() - at, 2nat,
{
    match forward(primary(items, at), at, items.len()) {
        Err(error) => Err(error),
        Ok((head, next)) => match power_tail(items, next, Seq::empty()) {
            Err(error) => Err(error),
            Ok((tail, end)) => Ok((ListView { head, tail }, end)),
        },
    }
}

/// The operands that follow `^` from `at` on, behind `seen`.
#[verifier::opaque]
pub open spec fn power_tail(items: Seq<Scanned>, at: int, seen: Seq<PrimaryView>) -> Parsed<
    Seq<PrimaryView>,
>
    decreases items.len() - at, 2nat,
{
    if kind_at(items, at) == Some(Kind::Caret) {
        match forward(primary(items, at + 1), at + 1, items.len()) {
            Err(error) => Err(error),
            Ok((operand, next)) => power_tail(items, next, seen.push(operand)),
        }
    } else {
        Ok((seen, at))
    }
}

/// primary → number | call | grouping ;
#[verifier::opaque]
pub open spec fn primary(items: Seq<Scanned>, at: int) -> Parsed<PrimaryView>
    decreases items.len() - at, 1nat,
{
    if kind_at(items, at) == Some(Kind::Minus) || kind_at(items, at) == Some(Kind::Number) {
        match number(items, at) {
            Err(error) => Err(error),
            Ok((literal, next)) => Ok((PrimaryView::Number(literal), next)),
        }
    } else if kind_at(items, at) == Some(Kind::Identifier) {
        match call(items, at) {
            Err(error) => Err(error),
            Ok((reference, next)) => Ok((PrimaryView::Call(reference), next)),
        }
    } else if kind_at(items, at) == Some(Kind::LeftParenthesis) {
        match grouping(items, at) {
            Err(error) => Err(error),
            Ok((inner, next)) => Ok((PrimaryView::Grouping(inner), next)),
        }
    } else {
        Err(mismatch(items, at))
    }
}

/// number → "-"? NUMBER ;
pub open spec fn number(items: Seq<Scanned>, at: int) -> Parsed<NumberView> {
    let negative = kind_at(items, at) == Some(Kind::Minus);
    let numeral = if negative {
        at + 1
    } else {
        at
    };
    match expect(items, numeral, Kind::Number) {
        Err(error) => Err(error),
        Ok(end) => Ok((NumberView { negative, number: lexeme_at(items, numeral) }, end)),
    }
}

/// call → IDENTIFIER ( "(" arguments ")" )* ;
#[verifier::opaque]
pub open spec fn call(items: Seq<Scanned>, at: int) -> Parsed<CallView>
    decreases items.len() - at, 0nat,
{
    match expect(items, at, Kind::Identifier) {
        Err(error) => Err(error),
        Ok(next) => match call_tail(items, next, Seq::empty()) {
            Err(error) => Err(error),
            Ok((arguments, end)) => Ok(
                (CallView { identifier: lexeme_at(items, at), arguments }, end),
            ),
        },
    }
}

/// The lists of arguments from `at` on, each in its parentheses, behind
/// `seen`.
#[verifier::opaque]
pub open spec fn call_tail(items: Seq<Scanned>, at: int, seen: Seq<ExpressionsView>) -> Parsed<
    Seq<ExpressionsView>,
>
    decreases items.len() - at, 11nat,
{
    if kind_at(items, at) == Some(Kind::LeftParenthesis) {
        match forward(arguments(items, at + 1), at + 1, items.len()) {
            Err(error) => Err(error),
            Ok((list, close)) => match expect(items, close, Kind::RightParenthesis) {
                Err(error) => Err(error),
                Ok(next) => call_tail(items, next, seen.push(list)),
            },
        }
    } else {
        Ok((seen, at))
    }
}

/// arguments → expression ( "," expression )* ;
#[verifier::opaque]
pub open spec fn arguments(items: Seq<Scanned>, at: int) -> Parsed<ExpressionsView>
    decreases items.len() - at, 10nat,
{
    match forward(expression(items, at), at, items.len()) {
        Err(error) => Err(error),
        Ok((head, next)) => match arguments_tail(items, next, Seq::empty()) {
            Err(error) => Err(error),
            Ok((tail, end)) => Ok((ListView { head, tail }, end)),
        },
    }
}

/// The expressions that follow commas from `at` on, behind `seen`.
#[verifier::opaque]
pub open spec fn arguments_tail(items: Seq<Scanned>, at: int, seen: Seq<ExpressionView>) -> Parsed<
    Seq<ExpressionView>,
>
    decreases items.len() - at, 10nat,
{
    if kind_at(items, at) == Some(Kind::Comma) {
        match forward(expression(items, at + 1), at + 1, items.len()) {
            Err(error) => Err(error),
            Ok((argument, next)) => arguments_tail(items, next, seen.push(argument)),
        }
    } else {
        Ok((seen, at))
    }
}

/// grouping → "(" expression ")" ;
#[verifier::opaque]
pub open spec fn grouping(items: Seq<Scanned>, at: int) -> Parsed<ExpressionView>
    decreases items.len() - at, 0nat,
{
    match expect(items, at, Kind::LeftParenthesis) {
        Err(error) => Err(error),
        Ok(next) => match expression(items, next) {
            Err(error) => Err(error),
            Ok((inner, close)) => match expect(items, close, Kind::RightParenthesis) {
                Err(error) => Err(error),
                Ok(end) => Ok((inner, end)),
            },
        },
    }
}

} // verus!
