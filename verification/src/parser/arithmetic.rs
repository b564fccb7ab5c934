//! The rules of arithmetic, from the loosest operator to the tightest.

use vstd::prelude::*;
use crate::errors::syntactical::SyntacticalError;
use crate::parser::{agrees, rules, Parser};
use crate::token::Kind;
use crate::grammar::expression::{
    AddOrSubtract,
    Epsilon,
    Modulo,
    MultiplyOrDivide,
    Power,
    Primary,
    Product,
    Sum,
};
use crate::grammar::list::List;
use crate::grammar::view::{
    add_or_subtract_view,
    add_or_subtract_views,
    epsilon_view,
    modulo_view,
    multiply_or_divide_view,
    multiply_or_divide_views,
    power_view,
    primary_view,
    primary_views,
    product_view,
    sum_view,
    sum_views,
};

verus! {

impl Parser {
    /// epsilon → modulo ( "~" modulo )? ;
    pub(super) fn parse_epsilon(&mut self) -> (result: Result<Epsilon, SyntacticalError>)
        ensures
            final(self).items() == old(self).items(),
            result is Ok ==> old(self).position() < final(self).position() <= final(self).items().len(),
            agrees(
                result,
                epsilon_view(result->Ok_0),
                final(self).position(),
                rules::epsilon(old(self).items(), old(self).position()),
            ),
        decreases old(self).remaining(), 6nat,
    {
        proof {
            reveal(rules::epsilon);
            reveal(rules::modulo);
        }
        let lhs = match self.parse_modulo() {
            Ok(lhs) => lhs,
            Err(error) => {
                return Err(error);
            },
        };
        if !self.at_kind(Kind::Tilde) {
            return Ok(Epsilon::new(lhs, None));
        }
        self.advance();
        match self.parse_modulo() {
            Ok(rhs) => Ok(Epsilon::new(lhs, Some(rhs))),
            Err(error) => Err(error),
        }
    }

    /// modulo → sum ( "%" sum )* ;
    pub(super) fn parse_modulo(&mut self) -> (result: Result<Modulo, SyntacticalError>)
        ensures
            final(self).items() == old(self).items(),
            result is Ok ==> old(self).position() < final(self).position() <= final(self).items().len(),
            agrees(
                result,
                modulo_view(result->Ok_0),
                final(self).position(),
                rules::modulo(old(self).items(), old(self).position()),
            ),
        decreases old(self).remaining(), 5nat,
    {
        proof {
            reveal(rules::modulo);
            reveal(rules::modulo_tail);
            reveal(rules::sum);
        }
        let head = match self.parse_sum() {
            Ok(head) => head,
            Err(error) => {
                return Err(error);
            },
        };
        let ghost start = self.position();
        let mut tail: Vec<Sum> = Vec::new();
        assert(sum_views(tail@) =~= Seq::empty());
        loop
            invariant
                self.items() == old(self).items(),
                old(self).position() < start <= self.position() <= self.items().len(),
                rules::modulo_tail(self.items(), start, Seq::empty()) is Err ==> rules::modulo(
                    old(self).items(),
                    old(self).position(),
                ) is Err && rules::modulo(old(self).items(), old(self).position())->Err_0
                    == rules::modulo_tail(self.items(), start, Seq::empty())->Err_0,
                rules::modulo_tail(self.items(), self.position(), sum_views(tail@))
                    == rules::modulo_tail(self.items(), start, Seq::empty()),
            ensures
                rules::modulo_tail(self.items(), start, Seq::empty()) == Ok::<_, SyntacticalError>(
                    (sum_views(tail@), self.position()),
                ),
            decreases self.remaining(),
        {
            proof {
                reveal(rules::modulo_tail);
                reveal(rules::sum);
            }
            if !self.at_kind(Kind::Percent) {
                break ;
            }
            self.advance();
            let ghost seen = tail@;
            match self.parse_sum() {
                Ok(operand) => {
                    tail.push(operand);
                    assert(sum_views(tail@) == sum_views(seen).push(sum_view(operand)));
                },
                Err(error) => {
                    return Err(error);
                },
            }
        }
        Ok(List::new(head, tail))
    }

    /// sum → product ( ( "+" | "-" ) product )* ;
    pub(super) fn parse_sum(&mut self) -> (result: Result<Sum, SyntacticalError>)
        ensures
            final(self).items() == old(self).items(),
            result is Ok ==> old(self).position() < final(self).position() <= final(self).items().len(),
            agrees(
                result,
                sum_view(result->Ok_0),
                final(self).position(),
                rules::sum(old(self).items(), old(self).position()),
            ),
        decreases old(self).remaining(), 4nat,
    {
        proof {
            reveal(rules::sum);
            reveal(rules::sum_tail);
            reveal(rules::product);
        }
        let head = match self.parse_product() {
            Ok(head) => head,
            Err(error) => {
                return Err(error);
            },
        };
        let ghost start = self.position();
        let mut tail: Vec<AddOrSubtract> = Vec::new();
        assert(add_or_subtract_views(tail@) =~= Seq::empty());
        loop
            invariant
                self.items() == old(self).items(),
                old(self).position() < start <= self.position() <= self.items().len(),
                rules::sum_tail(self.items(), start, Seq::empty()) is Err ==> rules::sum(
                    old(self).items(),
                    old(self).position(),
                ) is Err && rules::sum(old(self).items(), old(self).position())->Err_0
                    == rules::sum_tail(self.items(), start, Seq::empty())->Err_0,
                rules::sum_tail(self.items(), self.position(), add_or_subtract_views(tail@))
                    == rules::sum_tail(self.items(), start, Seq::empty()),
            ensures
                rules::sum_tail(self.items(), start, Seq::empty()) == Ok::<_, SyntacticalError>(
                    (add_or_subtract_views(tail@), self.position()),
                ),
            decreases self.remaining(),
        {
            proof {
                reveal(rules::sum_tail);
                reveal(rules::product);
            }
            let first = self.at_kind(Kind::Plus);
            if !first && !self.at_kind(Kind::Minus) {
                break ;
            }
            self.advance();
            let ghost seen = tail@;
            match self.parse_product() {
                Ok(operand) => {
                    let item = if first {
                        AddOrSubtract::Add(operand)
                    } else {
                        AddOrSubtract::Subtract(operand)
                    };
                    tail.push(item);
                    assert(add_or_subtract_views(tail@) == add_or_subtract_views(seen).push(add_or_subtract_view(item)));
                },
                Err(error) => {
                    return Err(error);
                },
            }
        }
        Ok(List::new(head, tail))
    }

    /// product → power ( ( "*" | "/" ) power )* ;
    pub(super) fn parse_product(&mut self) -> (result: Result<Product, SyntacticalError>)
        ensures
            final(self).items() == old(self).items(),
            result is Ok ==> old(self).position() < final(self).position() <= final(self).items().len(),
            agrees(
                result,
                product_view(result->Ok_0),
                final(self).position(),
                rules::product(old(self).items(), old(self).position()),
            ),
        decreases old(self).remaining(), 3nat,
    {
        proof {
            reveal(rules::product);
            reveal(rules::product_tail);
            reveal(rules::power);
        }
        let head = match self.parse_power() {
            Ok(head) => head,
            Err(error) => {
                return Err(error);
            },
        };
        let ghost start = self.position();
        let mut tail: Vec<MultiplyOrDivide> = Vec::new();
        assert(multiply_or_divide_views(tail@) =~= Seq::empty());
        loop
            invariant
                self.items() == old(self).items(),
                old(self).position() < start <= self.position() <= self.items().len(),
                rules::product_tail(self.items(), start, Seq::empty()) is Err ==> rules::product(
                    old(self).items(),
                    old(self).position(),
                ) is Err && rules::product(old(self).items(), old(self).position())->Err_0
                    == rules::product_tail(self.items(), start, Seq::empty())->Err_0,
                rules::product_tail(self.items(), self.position(), multiply_or_divide_views(tail@))
                    == rules::product_tail(self.items(), start, Seq::empty()),
            ensures
                rules::product_tail(self.items(), start, Seq::empty()) == Ok::<_, SyntacticalError>(
                    (multiply_or_divide_views(tail@), self.position()),
                ),
            decreases self.remaining(),
        {
            proof {
                reveal(rules::product_tail);
                reveal(rules::power);
            }
            let first = self.at_kind(Kind::Star);
            if !first && !self.at_kind(Kind::Slash) {
                break ;
            }
            self.advance();
            let ghost seen = tail@;
            match self.parse_power() {
                Ok(operand) => {
                    let item = if first {
                        MultiplyOrDivide::Multiply(operand)
                    } else {
                        MultiplyOrDivide::Divide(operand)
                    };
                    tail.push(item);
                    assert(multiply_or_divide_views(tail@) == multiply_or_divide_views(seen).push(multiply_or_divide_view(item)));
                },
                Err(error) => {
                    return Err(error);
                },
            }
        }
        Ok(List::new(head, tail))
    }

    /// power → primary ( "^" primary )* ;
    pub(super) fn parse_power(&mut self) -> (result: Result<Power, SyntacticalError>)
        ensures
            final(self).items() == old(self).items(),
            result is Ok ==> old(self).position() < final(self).position() <= final(self).items().len(),
            agrees(
                result,
                power_view(result->Ok_0),
                final(self).position(),
                rules::power(old(self).items(), old(self).position()),
            ),
        decreases old(self).remaining(), 2nat,
    {
        proof {
            reveal(rules::power);
            reveal(rules::power_tail);
            reveal(rules::primary);
        }
        let head = match self.parse_primary() {
            Ok(head) => head,
            Err(error) => {
                return Err(error);
            },
        };
        let ghost start = self.position();
        let mut tail: Vec<Primary> = Vec::new();
        assert(primary_views(tail@) =~= Seq::empty());
        loop
            invariant
                self.items() == old(self).items(),
                old(self).position() < start <= self.position() <= self.items().len(),
                rules::power_tail(self.items(), start, Seq::empty()) is Err ==> rules::power(
                    old(self).items(),
                    old(self).position(),
                ) is Err && rules::power(old(self).items(), old(self).position())->Err_0
                    == rules::power_tail(self.items(), start, Seq::empty())->Err_0,
                rules::power_tail(self.items(), self.position(), primary_views(tail@))
                    == rules::power_tail(self.items(), start, Seq::empty()),
            ensures
                rules::power_tail(self.items(), start, Seq::empty()) == Ok::<_, SyntacticalError>(
                    (primary_views(tail@), self.position()),
                ),
            decreases self.remaining(),
        {
            proof {
                reveal(rules::power_tail);
                reveal(rules::primary);
            }
            if !self.at_kind(Kind::Caret) {
                break ;
            }
            self.advance();
            let ghost seen = tail@;
            match self.parse_primary() {
                Ok(operand) => {
                    tail.push(operand);
                    assert(primary_views(tail@) == primary_views(seen).push(primary_view(operand)));
                },
                Err(error) => {
                    return Err(error);
                },
            }
        }
        Ok(List::new(head, tail))
    }
}

} // verus!
