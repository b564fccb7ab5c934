//! The rules of parameters and their patterns.

use vstd::prelude::*;
use crate::errors::syntactical::SyntacticalError;
use crate::parser::{agrees, rules, Parser};
use crate::token::Kind;
use crate::grammar::assignment::{
    Bound,
    Bounds,
    Function,
    Inequality,
    Parameters,
    Pattern,
    Refinement,
};
use crate::grammar::expression::{Arithmetic, Expression};
use crate::grammar::list::List;
use crate::grammar::view::{bounds_view, parameters_view, pattern_view, pattern_views};

verus! {

impl Parser {
    /// parameters → pattern ( "," pattern )* ;
    pub(super) fn parse_parameters(&mut self) -> (result: Result<Parameters, SyntacticalError>)
        ensures
            final(self).items() == old(self).items(),
            result is Ok ==> old(self).position() < final(self).position() <= final(self).items().len(),
            agrees(
                result,
                parameters_view(result->Ok_0),
                final(self).position(),
                rules::parameters(old(self).items(), old(self).position()),
            ),
        decreases old(self).remaining(), 11nat,
    {
        proof {
            reveal(rules::parameters);
            reveal(rules::parameters_tail);
            reveal(rules::pattern);
        }
        let head = match self.parse_pattern() {
            Ok(head) => head,
            Err(error) => {
                return Err(error);
            },
        };
        let ghost start = self.position();
        let mut tail: Vec<Pattern> = Vec::new();
        assert(pattern_views(tail@) =~= Seq::empty());
        loop
            invariant
                self.items() == old(self).items(),
                old(self).position() < start <= self.position() <= self.items().len(),
                rules::parameters_tail(self.items(), start, Seq::empty()) is Err ==> rules::parameters(
                    old(self).items(),
                    old(self).position(),
                ) is Err && rules::parameters(old(self).items(), old(self).position())->Err_0
                    == rules::parameters_tail(self.items(), start, Seq::empty())->Err_0,
                rules::parameters_tail(self.items(), self.position(), pattern_views(tail@))
                    == rules::parameters_tail(self.items(), start, Seq::empty()),
            ensures
                rules::parameters_tail(self.items(), start, Seq::empty()) == Ok::<_, SyntacticalError>(
                    (pattern_views(tail@), self.position()),
                ),
            decreases self.remaining(),
        {
            proof {
                reveal(rules::parameters_tail);
                reveal(rules::pattern);
            }
            if !self.at_kind(Kind::Comma) {
                break ;
            }
            self.advance();
            let ghost seen = tail@;
            match self.parse_pattern() {
                Ok(operand) => {
                    tail.push(operand);
                    assert(pattern_views(tail@) == pattern_views(seen).push(pattern_view(operand)));
                },
                Err(error) => {
                    return Err(error);
                },
            }
        }
        Ok(List::new(head, tail))
    }

    /// pattern → function | refinement | bounds ;
    pub(super) fn parse_pattern(&mut self) -> (result: Result<Pattern, SyntacticalError>)
        ensures
            final(self).items() == old(self).items(),
            result is Ok ==> old(self).position() < final(self).position() <= final(self).items().len(),
            agrees(
                result,
                pattern_view(result->Ok_0),
                final(self).position(),
                rules::pattern(old(self).items(), old(self).position()),
            ),
        decreases old(self).remaining(), 10nat,
    {
        proof {
            reveal(rules::pattern);
            reveal(rules::function);
            reveal(rules::epsilon);
            reveal(rules::bounds);
        }
        if !(self.at_kind(Kind::At) || self.at_kind(Kind::Underscore)) {
            return match self.parse_bounds() {
                Ok(bounds) => Ok(Pattern::Bounds(bounds)),
                Err(error) => Err(error),
            };
        }
        let shape = match self.parse_function() {
            Ok(shape) => shape,
            Err(error) => {
                return Err(error);
            },
        };
        if shape.parameters.is_some() || !self.at_comparator() {
            return Ok(Pattern::Function(Box::new(shape)));
        }
        let comparator = match self.parse_comparison_operator() {
            Ok(comparator) => comparator,
            Err(error) => {
                return Err(error);
            },
        };
        match self.parse_epsilon() {
            Ok(constraint) => {
                let Function { name, parameters: _ } = shape;
                Ok(
                    Pattern::Refinement(
                        Refinement::new(
                            name,
                            comparator,
                            Expression::from_arithmetic(Arithmetic::new(constraint)),
                        ),
                    ),
                )
            },
            Err(error) => Err(error),
        }
    }

    /// bounds → arithmetic inequality name inequality arithmetic ;
    pub(super) fn parse_bounds(&mut self) -> (result: Result<Bounds, SyntacticalError>)
        ensures
            final(self).items() == old(self).items(),
            result is Ok ==> old(self).position() < final(self).position() <= final(self).items().len(),
            agrees(
                result,
                bounds_view(result->Ok_0),
                final(self).position(),
                rules::bounds(old(self).items(), old(self).position()),
            ),
        decreases old(self).remaining(), 9nat,
    {
        proof {
            reveal(rules::bounds);
            reveal(rules::upper_bound);
            reveal(rules::epsilon);
        }
        let lower = match self.parse_epsilon() {
            Ok(lower) => lower,
            Err(error) => {
                return Err(error);
            },
        };
        let left = match self.parse_inequality() {
            Ok(left) => left,
            Err(error) => {
                return Err(error);
            },
        };
        let name = match self.parse_name() {
            Ok(name) => name,
            Err(error) => {
                return Err(error);
            },
        };
        let right = match self.parse_inequality() {
            Ok(right) => right,
            Err(error) => {
                return Err(error);
            },
        };
        match self.parse_epsilon() {
            Ok(upper) => Ok(
                Bounds::new(
                    Bound::new(Expression::from_arithmetic(Arithmetic::new(lower)), left),
                    name,
                    Bound::new(Expression::from_arithmetic(Arithmetic::new(upper)), right),
                ),
            ),
            Err(error) => Err(error),
        }
    }

    /// inequality → "<" | "<=" | ">" | ">=" ;
    pub(super) fn parse_inequality(&mut self) -> (result: Result<Inequality, SyntacticalError>)
        ensures
            final(self).items() == old(self).items(),
            result is Ok ==> old(self).position() < final(self).position() <= final(self).items().len(),
            agrees(
                result,
                result->Ok_0,
                final(self).position(),
                rules::inequality(old(self).items(), old(self).position()),
            ),
    {
        let inequality = match self.peek_kind() {
            Some(Kind::LessThan) => Inequality::LessThan,
            Some(Kind::GreaterThan) => Inequality::GreaterThan,
            Some(Kind::LessThanOrEqualTo) => Inequality::LessThanOrEqualTo,
            Some(Kind::GreaterThanOrEqualTo) => Inequality::GreaterThanOrEqualTo,
            _ => {
                return Err(self.mismatch());
            },
        };
        self.advance();
        Ok(inequality)
    }
}

} // verus!
