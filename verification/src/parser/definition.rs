//! The rules of definitions.

use vstd::prelude::*;
use crate::errors::syntactical::SyntacticalError;
use crate::parser::{agrees, rules, Parser};
use crate::token::Kind;
use crate::grammar::assignment::{Assignment, Block, Function, Name};
use crate::grammar::expression::Expression;
use crate::grammar::list::List;
use crate::grammar::view::{
    assignment_view,
    expression_view,
    expression_views,
    expressions_view,
    function_view,
    name_view,
};

verus! {

impl Parser {
    /// assignment → function "=" block ;
    pub(super) fn parse_assignment(&mut self) -> (result: Result<Assignment, SyntacticalError>)
        ensures
            final(self).items() == old(self).items(),
            result is Ok ==> old(self).position() < final(self).position() <= final(self).items().len(),
            agrees(
                result,
                assignment_view(result->Ok_0),
                final(self).position(),
                rules::assignment(old(self).items(), old(self).position()),
            ),
        decreases old(self).remaining(), 8nat,
    {
        proof {
            reveal(rules::assignment);
            reveal(rules::function);
            reveal(rules::block);
        }
        let function = match self.parse_function() {
            Ok(function) => function,
            Err(error) => {
                return Err(error);
            },
        };
        match self.next_kind(Kind::Equal) {
            Ok(_) => {},
            Err(error) => {
                return Err(error);
            },
        }
        match self.parse_block() {
            Ok(block) => Ok(Assignment::new(function, block)),
            Err(error) => Err(error),
        }
    }

    /// block → expression | "[" expression+ "]" ;
    pub(super) fn parse_block(&mut self) -> (result: Result<Block, SyntacticalError>)
        ensures
            final(self).items() == old(self).items(),
            result is Ok ==> old(self).position() < final(self).position() <= final(self).items().len(),
            agrees(
                result,
                expressions_view(result->Ok_0),
                final(self).position(),
                rules::block(old(self).items(), old(self).position()),
            ),
        decreases old(self).remaining(), 10nat,
    {
        proof {
            reveal(rules::block);
            reveal(rules::block_tail);
            reveal(rules::expression);
        }
        if !self.at_kind(Kind::LeftBracket) {
            return match self.parse_expression() {
                Ok(head) => {
                    let tail: Vec<Expression> = Vec::new();
                    assert(expression_views(tail@) =~= Seq::empty());
                    Ok(List::new(head, tail))
                },
                Err(error) => Err(error),
            };
        }
        self.advance();
        let head = match self.parse_expression() {
            Ok(head) => head,
            Err(error) => {
                return Err(error);
            },
        };
        let ghost start = self.position();
        let mut tail: Vec<Expression> = Vec::new();
        assert(expression_views(tail@) =~= Seq::empty());
        loop
            invariant_except_break
                rules::block_tail(self.items(), self.position(), expression_views(tail@))
                    == rules::block_tail(self.items(), start, Seq::empty()),
            invariant
                self.items() == old(self).items(),
                old(self).position() < start <= self.position() <= self.items().len(),
                rules::block_tail(self.items(), start, Seq::empty()) is Err ==> rules::block(
                    old(self).items(),
                    old(self).position(),
                ) is Err && rules::block(old(self).items(), old(self).position())->Err_0
                    == rules::block_tail(self.items(), start, Seq::empty())->Err_0,
            ensures
                rules::block_tail(self.items(), start, Seq::empty()) == Ok::<_, SyntacticalError>(
                    (expression_views(tail@), self.position()),
                ),
            decreases self.remaining(),
        {
            proof {
                reveal(rules::block_tail);
                reveal(rules::expression);
            }
            if self.at_kind(Kind::RightBracket) {
                self.advance();
                break ;
            }
            if !self.has_next() {
                return Err(SyntacticalError::Incomplete);
            }
            let ghost seen = tail@;
            match self.parse_expression() {
                Ok(expression) => {
                    tail.push(expression);
                    assert(expression_views(tail@) == expression_views(seen).push(
                        expression_view(expression),
                    ));
                },
                Err(error) => {
                    return Err(error);
                },
            }
        }
        Ok(List::new(head, tail))
    }

    /// function → name ( "(" parameters ")" )? ;
    pub(super) fn parse_function(&mut self) -> (result: Result<Function, SyntacticalError>)
        ensures
            final(self).items() == old(self).items(),
            result is Ok ==> old(self).position() < final(self).position() <= final(self).items().len(),
            agrees(
                result,
                function_view(result->Ok_0),
                final(self).position(),
                rules::function(old(self).items(), old(self).position()),
            ),
        decreases old(self).remaining(), 7nat,
    {
        proof {
            reveal(rules::function);
            reveal(rules::parameters);
        }
        let name = match self.parse_name() {
            Ok(name) => name,
            Err(error) => {
                return Err(error);
            },
        };
        if !self.at_kind(Kind::LeftParenthesis) {
            return Ok(Function::new(name, None));
        }
        self.advance();
        let parameters = match self.parse_parameters() {
            Ok(parameters) => parameters,
            Err(error) => {
                return Err(error);
            },
        };
        match self.next_kind(Kind::RightParenthesis) {
            Ok(_) => Ok(Function::new(name, Some(parameters))),
            Err(error) => Err(error),
        }
    }

    /// name → "_" | "@" IDENTIFIER ;
    pub(super) fn parse_name(&mut self) -> (result: Result<Name, SyntacticalError>)
        ensures
            final(self).items() == old(self).items(),
            result is Ok ==> old(self).position() < final(self).position() <= final(self).items().len(),
            agrees(
                result,
                name_view(result->Ok_0),
                final(self).position(),
                rules::name(old(self).items(), old(self).position()),
            ),
    {
        if self.at_kind(Kind::Underscore) {
            self.advance();
            Ok(Name::Anonymous)
        } else if self.at_kind(Kind::At) {
            self.advance();
            match self.next_kind(Kind::Identifier) {
                Ok(lexeme) => Ok(Name::Identified(lexeme)),
                Err(error) => Err(error),
            }
        } else {
            Err(self.mismatch())
        }
    }
}

} // verus!
