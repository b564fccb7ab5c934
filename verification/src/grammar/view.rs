//! What the syntax trees hold: the same trees as mathematical values, with
//! sequences for lists and for text. Contracts speak of these.

use vstd::prelude::*;
use crate::grammar::assignment::{
    Assignment,
    Bound,
    Bounds,
    Function,
    Inequality,
    Name,
    Pattern,
    Refinement,
};
use crate::grammar::comparison::{Comparator, Comparison, Comparisons};
use crate::grammar::expression::{
    AddOrSubtract,
    Arithmetic,
    Call,
    Epsilon,
    Expression,
    Grouping,
    Modulo,
    MultiplyOrDivide,
    Number,
    Power,
    Primary,
    Product,
    Sum,
};
use crate::grammar::list::{List, ListView};
use crate::grammar::program::Program;
use crate::lexeme::LexemeView;

verus! {

/// What a `Program` holds.
pub enum ProgramView {
    Expressions(ExpressionsView),
    Comparisons(ComparisonsView),
}

/// What a `Comparisons` holds.
pub struct ComparisonsView {
    pub lhs: ExpressionView,
    pub comparisons: ListView<ComparisonView, ComparisonView>,
}

/// What a `Comparison` holds.
pub struct ComparisonView {
    pub comparator: Comparator,
    pub rhs: ExpressionView,
}

/// What an `Expressions` holds.
pub type ExpressionsView = ListView<ExpressionView, ExpressionView>;

/// What an `Expression` holds.
pub enum ExpressionView {
    Arithmetic(Box<EpsilonView>),
    Assignment(Box<AssignmentView>),
}

/// What an `Epsilon` holds.
pub struct EpsilonView {
    pub lhs: ModuloView,
    pub rhs: Option<ModuloView>,
}

/// What a `Modulo` holds.
pub type ModuloView = ListView<SumView, SumView>;

/// What a `Sum` holds.
pub type SumView = ListView<ProductView, AddOrSubtractView>;

/// What an `AddOrSubtract` holds.
pub enum AddOrSubtractView {
    Add(ProductView),
    Subtract(ProductView),
}

/// What a `Product` holds.
pub type ProductView = ListView<PowerView, MultiplyOrDivideView>;

/// What a `MultiplyOrDivide` holds.
pub enum MultiplyOrDivideView {
    Multiply(PowerView),
    Divide(PowerView),
}

/// What a `Power` holds.
pub type PowerView = ListView<PrimaryView, PrimaryView>;

/// What a `Primary` holds.
pub enum PrimaryView {
    Number(NumberView),
    Call(CallView),
    Grouping(ExpressionView),
}

/// What a `Number` holds.
pub struct NumberView {
    pub negative: bool,
    pub number: LexemeView,
}

/// What a `Call` holds.
pub struct CallView {
    pub identifier: LexemeView,
    pub arguments: Seq<ExpressionsView>,
}

/// What an `Assignment` holds.
pub struct AssignmentView {
    pub function: FunctionView,
    pub block: ExpressionsView,
}

/// What a `Function` holds.
pub struct FunctionView {
    pub name: NameView,
    pub parameters: Option<ParametersView>,
}

/// What a `Parameters` holds.
pub type ParametersView = ListView<PatternView, PatternView>;

/// What a `Name` holds.
pub enum NameView {
    Anonymous,
    Identified(LexemeView),
}

/// What a `Pattern` holds.
pub enum PatternView {
    Function(Box<FunctionView>),
    Refinement(RefinementView),
    Bounds(BoundsView),
}

/// What a `Refinement` holds.
pub struct RefinementView {
    pub name: NameView,
    pub comparator: Comparator,
    pub constraint: ExpressionView,
}

/// What a `Bound` holds.
pub struct BoundView {
    pub constraint: ExpressionView,
    pub inequality: Inequality,
}

/// What a `Bounds` holds.
pub struct BoundsView {
    pub left: BoundView,
    pub name: NameView,
    pub right: BoundView,
}

/// The tree as a mathematical value.
pub open spec fn program_view(program: Program) -> ProgramView {
    match program {
        Program::Expressions(expressions) => ProgramView::Expressions(
            expressions_view(expressions),
        ),
        Program::Comparisons(comparisons) => ProgramView::Comparisons(
            comparisons_view(comparisons),
        ),
    }
}

/// The tree as a mathematical value.
pub open spec fn comparisons_view(chain: Comparisons) -> ComparisonsView {
    ComparisonsView {
        lhs: expression_view(chain.lhs),
        comparisons: ListView {
            head: comparison_view(chain.comparisons.0),
            tail: comparison_views(chain.comparisons.1@),
        },
    }
}

/// The tree as a mathematical value.
pub open spec fn comparison_view(comparison: Comparison) -> ComparisonView {
    ComparisonView { comparator: comparison.comparator, rhs: expression_view(comparison.rhs) }
}

/// The tree as a mathematical value.
pub open spec fn expressions_view(list: List<Expression>) -> ExpressionsView
    decreases list,
{
    ListView {
        head: expression_view(list.0),
        tail: expression_views(list.1@),
    }
}

/// The tree as a mathematical value.
pub open spec fn expression_view(expression: Expression) -> ExpressionView
    decreases expression,
{
    match expression {
        Expression::Arithmetic(arithmetic) => ExpressionView::Arithmetic(
            Box::new(epsilon_view(arithmetic.0)),
        ),
        Expression::Assignment(assignment) => ExpressionView::Assignment(
            Box::new(assignment_view(*assignment)),
        ),
    }
}

/// The tree as a mathematical value.
pub open spec fn arithmetic_view(arithmetic: Arithmetic) -> EpsilonView {
    epsilon_view(arithmetic.0)
}

/// The tree as a mathematical value.
pub open spec fn epsilon_view(epsilon: Epsilon) -> EpsilonView
    decreases epsilon,
{
    EpsilonView {
        lhs: modulo_view(epsilon.lhs),
        rhs: match epsilon.rhs {
            Some(modulo) => Some(modulo_view(modulo)),
            None => None,
        },
    }
}

/// The tree as a mathematical value.
pub open spec fn modulo_view(modulo: Modulo) -> ModuloView
    decreases modulo,
{
    ListView {
        head: sum_view(modulo.0),
        tail: sum_views(modulo.1@),
    }
}

/// The tree as a mathematical value.
pub open spec fn sum_view(sum: Sum) -> SumView
    decreases sum,
{
    ListView {
        head: product_view(sum.0),
        tail: add_or_subtract_views(sum.1@),
    }
}

/// The tree as a mathematical value.
pub open spec fn add_or_subtract_view(term: AddOrSubtract) -> AddOrSubtractView
    decreases term,
{
    match term {
        AddOrSubtract::Add(product) => AddOrSubtractView::Add(product_view(product)),
        AddOrSubtract::Subtract(product) => AddOrSubtractView::Subtract(product_view(product)),
    }
}

/// The tree as a mathematical value.
pub open spec fn product_view(product: Product) -> ProductView
    decreases product,
{
    ListView {
        head: power_view(product.0),
        tail: multiply_or_divide_views(product.1@),
    }
}

/// The tree as a mathematical value.
pub open spec fn multiply_or_divide_view(factor: MultiplyOrDivide) -> MultiplyOrDivideView
    decreases factor,
{
    match factor {
        MultiplyOrDivide::Multiply(power) => MultiplyOrDivideView::Multiply(power_view(power)),
        MultiplyOrDivide::Divide(power) => MultiplyOrDivideView::Divide(power_view(power)),
    }
}

/// The tree as a mathematical value.
pub open spec fn power_view(power: Power) -> PowerView
    decreases power,
{
    ListView {
        head: primary_view(power.0),
        tail: primary_views(power.1@),
    }
}

/// The tree as a mathematical value.
pub open spec fn primary_view(primary: Primary) -> PrimaryView
    decreases primary,
{
    match primary {
        Primary::Number(number) => PrimaryView::Number(number_view(number)),
        Primary::Call(call) => PrimaryView::Call(call_view(call)),
        Primary::Grouping(grouping) => PrimaryView::Grouping(expression_view(grouping.0)),
    }
}

/// The tree as a mathematical value.
pub open spec fn number_view(number: Number) -> NumberView {
    NumberView { negative: number.negative, number: number.number@ }
}

/// The tree as a mathematical value.
pub open spec fn call_view(call: Call) -> CallView
    decreases call,
{
    CallView {
        identifier: call.identifier@,
        arguments: arguments_views(call.arguments@),
    }
}

/// The tree as a mathematical value.
pub open spec fn assignment_view(assignment: Assignment) -> AssignmentView
    decreases assignment,
{
    AssignmentView {
        function: function_view(assignment.function),
        block: expressions_view(assignment.block),
    }
}

/// The tree as a mathematical value.
pub open spec fn function_view(function: Function) -> FunctionView
    decreases function,
{
    FunctionView {
        name: name_view(function.name),
        parameters: match function.parameters {
            Some(parameters) => Some(parameters_view(parameters)),
            None => None,
        },
    }
}

/// The tree as a mathematical value.
pub open spec fn parameters_view(parameters: List<Pattern>) -> ParametersView
    decreases parameters,
{
    ListView {
        head: pattern_view(parameters.0),
        tail: pattern_views(parameters.1@),
    }
}

/// The tree as a mathematical value.
pub open spec fn name_view(name: Name) -> NameView {
    match name {
        Name::Anonymous => NameView::Anonymous,
        Name::Identified(lexeme) => NameView::Identified(lexeme@),
    }
}

/// The tree as a mathematical value.
pub open spec fn pattern_view(pattern: Pattern) -> PatternView
    decreases pattern,
{
    match pattern {
        Pattern::Function(function) => PatternView::Function(Box::new(function_view(*function))),
        Pattern::Refinement(refinement) => PatternView::Refinement(
            RefinementView {
                name: name_view(refinement.name),
                comparator: refinement.comparator,
                constraint: expression_view(refinement.constraint),
            },
        ),
        Pattern::Bounds(bounds) => PatternView::Bounds(bounds_view(bounds)),
    }
}

/// The tree as a mathematical value.
pub open spec fn bounds_view(bounds: Bounds) -> BoundsView
    decreases bounds,
{
    BoundsView {
        left: bound_view(bounds.left),
        name: name_view(bounds.name),
        right: bound_view(bounds.right),
    }
}

/// The tree as a mathematical value.
pub open spec fn bound_view(bound: Bound) -> BoundView
    decreases bound,
{
    BoundView { constraint: expression_view(bound.constraint), inequality: bound.inequality }
}

/// What the items of `items` hold, in order.
pub open spec fn expression_views(items: Seq<Expression>) -> Seq<ExpressionView>
    decreases items,
{
    Seq::new(
        items.len(),
        |i: int|
            if 0 <= i < items.len() {
                expression_view(items[i])
            } else {
                arbitrary()
            },
    )
}

/// What the items of `items` hold, in order.
pub open spec fn sum_views(items: Seq<Sum>) -> Seq<SumView>
    decreases items,
{
    Seq::new(
        items.len(),
        |i: int|
            if 0 <= i < items.len() {
                sum_view(items[i])
            } else {
                arbitrary()
            },
    )
}

/// What the items of `items` hold, in order.
pub open spec fn add_or_subtract_views(items: Seq<AddOrSubtract>) -> Seq<AddOrSubtractView>
    decreases items,
{
    Seq::new(
        items.len(),
        |i: int|
            if 0 <= i < items.len() {
                add_or_subtract_view(items[i])
            } else {
                arbitrary()
            },
    )
}

/// What the items of `items` hold, in order.
pub open spec fn multiply_or_divide_views(items: Seq<MultiplyOrDivide>) -> Seq<MultiplyOrDivideView>
    decreases items,
{
    Seq::new(
        items.len(),
        |i: int|
            if 0 <= i < items.len() {
                multiply_or_divide_view(items[i])
            } else {
                arbitrary()
            },
    )
}

/// What the items of `items` hold, in order.
pub open spec fn primary_views(items: Seq<Primary>) -> Seq<PrimaryView>
    decreases items,
{
    Seq::new(
        items.len(),
        |i: int|
            if 0 <= i < items.len() {
                primary_view(items[i])
            } else {
                arbitrary()
            },
    )
}

/// What the items of `items` hold, in order.
pub open spec fn pattern_views(items: Seq<Pattern>) -> Seq<PatternView>
    decreases items,
{
    Seq::new(
        items.len(),
        |i: int|
            if 0 <= i < items.len() {
                pattern_view(items[i])
            } else {
                arbitrary()
            },
    )
}

/// What the items of `items` hold, in order.
pub open spec fn arguments_views(items: Seq<List<Expression>>) -> Seq<ExpressionsView>
    decreases items,
{
    Seq::new(
        items.len(),
        |i: int|
            if 0 <= i < items.len() {
                expressions_view(items[i])
            } else {
                arbitrary()
            },
    )
}

/// What the items of `items` hold, in order.
pub open spec fn comparison_views(items: Seq<Comparison>) -> Seq<ComparisonView> {
    Seq::new(items.len(), |i: int| comparison_view(items[i]))
}

} // verus!
