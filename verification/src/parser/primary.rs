//! The operands of arithmetic: numbers, calls and groupings.

use vstd::prelude::*;
use crate::errors::syntactical::SyntacticalError;
use crate::parser::{agrees, rules, Parser};
use crate::token::Kind;
use crate::grammar::expression::{Arguments, Call, Expression, Grouping, Number, Primary};
use crate::grammar::list::List;
use crate::grammar::view::{
    arguments_views,
    call_view,
    expression_view,
    expression_views,
    expressions_view,
    number_view,
    primary_view,
};

verus! {

impl Parser {
    /// primary → number | call | grouping ;
    pub(super) fn parse_primary(&mut self) -> (result: Result<Primary, SyntacticalError>)
        ensures
            final(self).items() == old(self).items(),
            result is Ok ==> old(self).position() < final(self).position() <= final(self).items().len(),
            agrees(
                result,
                primary_view(result->Ok_0),
                final(self).position(),
                rules::primary(old(self).items(), old(self).position()),
            ),
        decreases old(self).remaining(), 1nat,
    {
        proof {
            reveal(rules::primary);
            reveal(rules::call);
            reveal(rules::grouping);
        }
        match self.peek_kind() {
            Some(Kind::Minus) | Some(Kind::Number) => match self.parse_number() {
                Ok(number) => Ok(Primary::Number(number)),
                Err(error) => Err(error),
            },
            Some(Kind::Identifier) => match self.parse_call() {
                Ok(call) => Ok(Primary::Call(call)),
                Err(error) => Err(error),
            },
            Some(Kind::LeftParenthesis) => match self.parse_grouping() {
                Ok(grouping) => Ok(Primary::Grouping(grouping)),
                Err(error) => Err(error),
            },
            _ => Err(self.mismatch()),
        }
    }

    /// number → "-"? NUMBER ;
    pub(super) fn parse_number(&mut self) -> (result: Result<Number, SyntacticalError>)
        ensures
            final(self).items() == old(self).items(),
            result is Ok ==> old(self).position() < final(self).position() <= final(self).items().len(),
            agrees(
                result,
                number_view(result->Ok_0),
                final(self).position(),
                rules::number(old(self).items(), old(self).position()),
            ),
    {
        let negative = self.at_kind(Kind::Minus);
        if negative {
            self.advance();
        }
        match self.next_kind(Kind::Number) {
            Ok(numeral) => Ok(Number::new(negative, numeral)),
            Err(error) => Err(error),
        }
    }

    /// call → IDENTIFIER ( "(" arguments ")" )* ;
    pub(super) fn parse_call(&mut self) -> (result: Result<Call, SyntacticalError>)
        ensures
            final(self).items() == old(self).items(),
            result is Ok ==> old(self).position() < final(self).position() <= final(self).items().len(),
            agrees(
                result,
                call_view(result->Ok_0),
                final(self).position(),
                rules::call(old(self).items(), old(self).position()),
            ),
        decreases old(self).remaining(), 0nat,
    {
        proof {
            reveal(rules::call);
            reveal(rules::call_tail);
            reveal(rules::arguments);
        }
        let identifier = match self.next_kind(Kind::Identifier) {
            Ok(identifier) => identifier,
            Err(error) => {
                return Err(error);
            },
        };
        let ghost start = self.position();
        let mut lists: Vec<Arguments> = Vec::new();
        assert(arguments_views(lists@) =~= Seq::empty());
        loop
            invariant
                self.items() == old(self).items(),
                old(self).position() < start <= self.position() <= self.items().len(),
                rules::call_tail(self.items(), start, Seq::empty()) is Err ==> rules::call(
                    old(self).items(),
                    old(self).position(),
                ) is Err && rules::call(old(self).items(), old(self).position())->Err_0
                    == rules::call_tail(self.items(), start, Seq::empty())->Err_0,
                rules::call_tail(self.items(), self.position(), arguments_views(lists@))
                    == rules::call_tail(self.items(), start, Seq::empty()),
            ensures
                rules::call_tail(self.items(), start, Seq::empty()) == Ok::<_, SyntacticalError>(
                    (arguments_views(lists@), self.position()),
                ),
            decreases self.remaining(),
        {
            proof {
                reveal(rules::call_tail);
                reveal(rules::arguments);
            }
            if !self.at_kind(Kind::LeftParenthesis) {
                break ;
            }
            self.advance();
            let ghost seen = lists@;
            let arguments = match self.parse_arguments() {
                Ok(arguments) => arguments,
                Err(error) => {
                    return Err(error);
                },
            };
            match self.next_kind(Kind::RightParenthesis) {
                Ok(_) => {},
                Err(error) => {
                    return Err(error);
                },
            }
            lists.push(arguments);
            assert(arguments_views(lists@) == arguments_views(seen).push(
                expressions_view(arguments),
            ));
        }
        Ok(Call::new(identifier, lists))
    }

    /// arguments → expression ( "," expression )* ;
    pub(super) fn parse_arguments(&mut self) -> (result: Result<Arguments, SyntacticalError>)
        ensures
            final(self).items() == old(self).items(),
            result is Ok ==> old(self).position() < final(self).position() <= final(self).items().len(),
            agrees(
                result,
                expressions_view(result->Ok_0),
                final(self).position(),
                rules::arguments(old(self).items(), old(self).position()),
            ),
        decreases old(self).remaining(), 10nat,
    {
        proof {
            reveal(rules::arguments);
            reveal(rules::arguments_tail);
            reveal(rules::expression);
        }
        let head = match self.parse_expression() {
            Ok(head) => head,
            Err(error) => {
                return Err(error);
            },
        };
        let ghost start = self.position();
        let mut tail: Vec<Expression> = Vec::new();
        assert(expression_views(tail@) =~= Seq::empty());
        loop
            invariant
                self.items() == old(self).items(),
                old(self).position() < start <= self.position() <= self.items().len(),
                rules::arguments_tail(self.items(), start, Seq::empty()) is Err ==> rules::arguments(
                    old(self).items(),
                    old(self).position(),
                ) is Err && rules::arguments(old(self).items(), old(self).position())->Err_0
                    == rules::arguments_tail(self.items(), start, Seq::empty())->Err_0,
                rules::arguments_tail(self.items(), self.position(), expression_views(tail@))
                    == rules::arguments_tail(self.items(), start, Seq::empty()),
            ensures
                rules::arguments_tail(self.items(), start, Seq::empty()) == Ok::<_, SyntacticalError>(
                    (expression_views(tail@), self.position()),
                ),
            decreases self.remaining(),
        {
            proof {
                reveal(rules::arguments_tail);
                reveal(rules::expression);
            }
            if !self.at_kind(Kind::Comma) {
                break ;
            }
            self.advance();
            let ghost seen = tail@;
            match self.parse_expression() {
                Ok(operand) => {
                    tail.push(operand);
                    assert(expression_views(tail@) == expression_views(seen).push(expression_view(operand)));
                },
                Err(error) => {
                    return Err(error);
                },
            }
        }
        Ok(List::new(head, tail))
    }

    /// grouping → "(" expression ")" ;
    pub(super) fn parse_grouping(&mut self) -> (result: Result<Grouping, SyntacticalError>)
        ensures
            final(self).items() == old(self).items(),
            result is Ok ==> old(self).position() < final(self).position() <= final(self).items().len(),
            agrees(
                result,
                expression_view(result->Ok_0.0),
                final(self).position(),
                rules::grouping(old(self).items(), old(self).position()),
            ),
        decreases old(self).remaining(), 0nat,
    {
        proof {
            reveal(rules::grouping);
            reveal(rules::expression);
        }
        match self.next_kind(Kind::LeftParenthesis) {
            Ok(_) => {},
            Err(error) => {
                return Err(error);
            },
        }
        let inner = match self.parse_expression() {
            Ok(inner) => inner,
            Err(error) => {
                return Err(error);
            },
        };
        match self.next_kind(Kind::RightParenthesis) {
            Ok(_) => Ok(Grouping::new(inner)),
            Err(error) => Err(error),
        }
    }
}

} // verus!

