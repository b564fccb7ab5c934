//! Syntactic analysis: from a sequence of tokens to a syntax tree.
//!
//! The parser is a recursive descent over the grammar of [`rules`], with one
//! token of lookahead. It stops at the first error.

pub mod arithmetic;
pub mod definition;
pub mod pattern;
pub mod primary;
pub mod progress;
pub mod rules;

use vstd::prelude::*;
use crate::errors::lexical::LexicalError;
use crate::errors::syntactical::SyntacticalError;
use crate::grammar::comparison::{Comparator, Comparison, Comparisons};
use crate::grammar::expression::{Arithmetic, Expression};
use crate::grammar::list::List;
use crate::grammar::program::Program;
use crate::grammar::view::{
    comparison_view,
    comparison_views,
    expression_view,
    expression_views,
    program_view,
};
use crate::lexeme::Lexeme;
use crate::scanner::{items_view, scan_of, Scanned, Scanner};
use crate::token::{Kind, Token};

verus! {

/// A recursive descent parser that stands at one position of its tokens.
pub struct Parser {
    tokens: Vec<Result<Token, LexicalError>>,
    position: usize,
}

/// Whether `result` is what the rule of the grammar gave as `expected`, with
/// `tree` for what the tree of `result` holds and `end` for where the parser
/// stands afterwards.
pub open spec fn agrees<T, V>(
    result: Result<T, SyntacticalError>,
    tree: V,
    end: int,
    expected: rules::Parsed<V>,
) -> bool {
    match result {
        Ok(_) => expected == Ok::<(V, int), SyntacticalError>((tree, end)),
        Err(error) => expected == Err::<(V, int), SyntacticalError>(error),
    }
}

impl Parser {
    #[verifier::type_invariant]
    spec fn well_formed(self) -> bool {
        self.position <= self.tokens@.len()
    }

    /// The items that this parser reads.
    pub closed spec fn items(&self) -> Seq<Scanned> {
        items_view(self.tokens@)
    }

    /// How many items this parser has left behind.
    pub closed spec fn position(&self) -> int {
        self.position as int
    }

    /// How many items this parser has before it.
    pub open spec fn remaining(&self) -> int {
        self.items().len() - self.position()
    }

    /// A parser at the first of `tokens`.
    pub fn new(tokens: Vec<Result<Token, LexicalError>>) -> (parser: Parser)
        ensures
            parser.items() == items_view(tokens@),
            parser.position() == 0,
    {
        Parser { tokens, position: 0 }
    }

    /// A parser at the first token of `source`.
    pub fn from_source(source: &str) -> (parser: Parser)
        ensures
            parser.items() == scan_of(source@),
            parser.position() == 0,
    {
        Parser::new(Scanner::scan(source))
    }

    /// Whether any item is left.
    fn has_next(&self) -> (more: bool)
        ensures
            0 <= self.position() <= self.items().len(),
            more == (self.position() < self.items().len()),
    {
        proof {
            use_type_invariant(self);
        }
        self.position < self.tokens.len()
    }

    /// The kind of the token at hand.
    fn peek_kind(&self) -> (kind: Option<Kind>)
        ensures
            0 <= self.position() <= self.items().len(),
            kind == rules::kind_at(self.items(), self.position()),
    {
        proof {
            use_type_invariant(self);
        }
        if self.position < self.tokens.len() {
            match &self.tokens[self.position] {
                Ok(token) => Some(token.kind()),
                Err(_) => None,
            }
        } else {
            None
        }
    }

    /// Whether the token at hand is of kind `kind`.
    fn at_kind(&self, kind: Kind) -> (found: bool)
        ensures
            0 <= self.position() <= self.items().len(),
            found == (rules::kind_at(self.items(), self.position()) == Some(kind)),
    {
        match self.peek_kind() {
            Some(found) => found == kind,
            None => false,
        }
    }

    /// The error for the item at hand, which the grammar does not allow.
    fn mismatch(&self) -> (error: SyntacticalError)
        ensures
            error == rules::mismatch(self.items(), self.position()),
    {
        if self.has_next() {
            SyntacticalError::NoMatch
        } else {
            SyntacticalError::Incomplete
        }
    }

    /// Steps over the item at hand.
    fn advance(&mut self)
        requires
            old(self).position() < old(self).items().len(),
        ensures
            final(self).items() == old(self).items(),
            final(self).position() == old(self).position() + 1,
    {
        proof {
            use_type_invariant(&*self);
            assert(self.position < self.tokens.len() <= usize::MAX);
        }
        self.position = self.position + 1;
    }

    /// Takes the token at hand if it is of kind `kind`, and returns its
    /// lexeme. Otherwise the parser stays where it is.
    fn next_kind(&mut self, kind: Kind) -> (result: Result<Lexeme, SyntacticalError>)
        ensures
            final(self).items() == old(self).items(),
            match result {
                Ok(lexeme) => {
                    &&& rules::expect(old(self).items(), old(self).position(), kind) == Ok::<
                        int,
                        SyntacticalError,
                    >(final(self).position())
                    &&& lexeme@ == rules::lexeme_at(old(self).items(), old(self).position())
                    &&& final(self).position() == old(self).position() + 1
                    &&& final(self).position() <= final(self).items().len()
                },
                Err(error) => {
                    &&& rules::expect(old(self).items(), old(self).position(), kind) == Err::<
                        int,
                        SyntacticalError,
                    >(error)
                    &&& final(self).position() == old(self).position()
                },
            },
    {
        proof {
            use_type_invariant(&*self);
        }
        if self.at_kind(kind) {
            let lexeme = match &self.tokens[self.position] {
                Ok(token) => token.lexeme().clone(),
                Err(error) => error.lexeme().clone(),
            };
            self.advance();
            Ok(lexeme)
        } else {
            Err(self.mismatch())
        }
    }

    /// expression → assignment | arithmetic ;
    fn parse_expression(&mut self) -> (result: Result<Expression, SyntacticalError>)
        ensures
            final(self).items() == old(self).items(),
            result is Ok ==> old(self).position() < final(self).position() <= final(self).items().len(),
            agrees(
                result,
                expression_view(result->Ok_0),
                final(self).position(),
                rules::expression(old(self).items(), old(self).position()),
            ),
        decreases old(self).remaining(), 9nat,
    {
        proof {
            reveal(rules::expression);
            reveal(rules::assignment);
            reveal(rules::epsilon);
        }
        if self.at_kind(Kind::At) || self.at_kind(Kind::Underscore) {
            match self.parse_assignment() {
                Ok(assignment) => Ok(Expression::from_assignment(assignment)),
                Err(error) => Err(error),
            }
        } else {
            match self.parse_epsilon() {
                Ok(epsilon) => Ok(Expression::from_arithmetic(Arithmetic::new(epsilon))),
                Err(error) => Err(error),
            }
        }
    }

    /// Whether a comparator is at hand.
    fn at_comparator(&self) -> (found: bool)
        ensures
            0 <= self.position() <= self.items().len(),
            found == rules::comparator_at(self.items(), self.position()),
    {
        match self.peek_kind() {
            Some(Kind::LessThan) => true,
            Some(Kind::GreaterThan) => true,
            Some(Kind::LessThanOrEqualTo) => true,
            Some(Kind::GreaterThanOrEqualTo) => true,
            Some(Kind::Equal) => true,
            Some(Kind::NotEqual) => true,
            _ => false,
        }
    }

    /// comparator → "<" | "<=" | ">" | ">=" | "=" | "<>" ;
    fn parse_comparison_operator(&mut self) -> (result: Result<Comparator, SyntacticalError>)
        ensures
            final(self).items() == old(self).items(),
            match result {
                Ok(comparator) => {
                    &&& rules::comparator_at(old(self).items(), old(self).position())
                    &&& Some(comparator) == rules::comparator_of(
                        rules::kind_at(old(self).items(), old(self).position())->0,
                    )
                    &&& final(self).position() == old(self).position() + 1
                    &&& final(self).position() <= final(self).items().len()
                },
                Err(error) => {
                    &&& !rules::comparator_at(old(self).items(), old(self).position())
                    &&& error == rules::mismatch(old(self).items(), old(self).position())
                    &&& final(self).position() == old(self).position()
                },
            },
    {
        let comparator = match self.peek_kind() {
            Some(Kind::LessThan) => Comparator::LessThan,
            Some(Kind::GreaterThan) => Comparator::GreaterThan,
            Some(Kind::LessThanOrEqualTo) => Comparator::LessThanOrEqualTo,
            Some(Kind::GreaterThanOrEqualTo) => Comparator::GreaterThanOrEqualTo,
            Some(Kind::Equal) => Comparator::EqualTo,
            Some(Kind::NotEqual) => Comparator::NotEqualTo,
            _ => {
                return Err(self.mismatch());
            },
        };
        self.advance();
        Ok(comparator)
    }

    /// comparison → comparator expression ;
    fn parse_comparison(&mut self) -> (result: Result<Comparison, SyntacticalError>)
        ensures
            final(self).items() == old(self).items(),
            result is Ok ==> old(self).position() < final(self).position() <= final(self).items().len(),
            agrees(
                result,
                comparison_view(result->Ok_0),
                final(self).position(),
                rules::comparison(old(self).items(), old(self).position()),
            ),
    {
        proof {
            reveal(rules::comparison);
            reveal(rules::expression);
        }
        let comparator = match self.parse_comparison_operator() {
            Ok(comparator) => comparator,
            Err(error) => {
                return Err(error);
            },
        };
        match self.parse_expression() {
            Ok(rhs) => Ok(Comparison::new(comparator, rhs)),
            Err(error) => Err(error),
        }
    }

    /// The expressions from where the parser stands to the end of the tokens,
    /// behind `first`.
    fn parse_expressions(&mut self, first: Expression) -> (result: Result<
        Program,
        SyntacticalError,
    >)
        ensures
            final(self).items() == old(self).items(),
            match result {
                Ok(program) => {
                    &&& program matches Program::Expressions(list)
                    &&& list.0 == first
                    &&& rules::expressions(old(self).items(), old(self).position(), Seq::empty())
                        matches Ok((tail, _))
                    &&& tail == expression_views(list.1@)
                },
                Err(error) => rules::expressions(
                    old(self).items(),
                    old(self).position(),
                    Seq::empty(),
                ) matches Err(expected) && expected == error,
            },
    {
        proof {
            reveal(rules::expressions);
            reveal(rules::expression);
            use_type_invariant(&*self);
        }
        let mut tail: Vec<Expression> = Vec::new();
        assert(expression_views(tail@) =~= Seq::empty());
        loop
            invariant
                self.items() == old(self).items(),
                old(self).position() <= self.position() <= self.items().len(),
                rules::expressions(self.items(), self.position(), expression_views(tail@))
                    == rules::expressions(self.items(), old(self).position(), Seq::empty()),
            ensures
                rules::expressions(self.items(), old(self).position(), Seq::empty()) == Ok::<
                    _,
                    SyntacticalError,
                >((expression_views(tail@), self.position())),
            decreases self.remaining(),
        {
            proof {
                reveal(rules::expressions);
                reveal(rules::expression);
            }
            if !self.has_next() {
                break ;
            }
            let ghost seen = tail@;
            match self.parse_expression() {
                Ok(expression) => {
                    tail.push(expression);
                    assert(expression_views(tail@) == expression_views(seen).push(
                        expression_view(expression),
                    ));
                },
                Err(error) => {
                    return Err(error);
                },
            }
        }
        Ok(Program::Expressions(List::new(first, tail)))
    }

    /// The comparisons from where the parser stands to the end of the tokens,
    /// as a chain that begins with `first`.
    fn parse_comparisons(&mut self, first: Expression) -> (result: Result<
        Program,
        SyntacticalError,
    >)
        ensures
            final(self).items() == old(self).items(),
            match result {
                Ok(program) => {
                    &&& program matches Program::Comparisons(chain)
                    &&& chain.lhs == first
                    &&& rules::forward(
                        rules::comparison(old(self).items(), old(self).position()),
                        old(self).position(),
                        old(self).items().len(),
                    ) matches Ok((head, rest))
                    &&& head == comparison_view(chain.comparisons.0)
                    &&& rules::comparisons(old(self).items(), rest, Seq::empty()) matches Ok(
                        (tail, _),
                    )
                    &&& tail == comparison_views(chain.comparisons.1@)
                },
                Err(error) => match rules::forward(
                    rules::comparison(old(self).items(), old(self).position()),
                    old(self).position(),
                    old(self).items().len(),
                ) {
                    Ok((_, rest)) => rules::comparisons(old(self).items(), rest, Seq::empty())
                        matches Err(expected) && expected == error,
                    Err(expected) => expected == error,
                },
            },
    {
        proof {
            reveal(rules::comparisons);
            reveal(rules::comparison);
        }
        let head = match self.parse_comparison() {
            Ok(head) => head,
            Err(error) => {
                return Err(error);
            },
        };
        let ghost start = self.position();
        let mut tail: Vec<Comparison> = Vec::new();
        assert(comparison_views(tail@) =~= Seq::empty());
        loop
            invariant
                self.items() == old(self).items(),
                old(self).position() < start <= self.position() <= self.items().len(),
                rules::forward(
                    rules::comparison(old(self).items(), old(self).position()),
                    old(self).position(),
                    old(self).items().len(),
                ) == Ok::<_, SyntacticalError>((comparison_view(head), start)),
                rules::comparisons(self.items(), self.position(), comparison_views(tail@))
                    == rules::comparisons(self.items(), start, Seq::empty()),
            ensures
                rules::comparisons(self.items(), start, Seq::empty()) == Ok::<
                    _,
                    SyntacticalError,
                >((comparison_views(tail@), self.position())),
            decreases self.remaining(),
        {
            proof {
                reveal(rules::comparisons);
                reveal(rules::comparison);
            }
            if !self.has_next() {
                break ;
            }
            let ghost seen = tail@;
            match self.parse_comparison() {
                Ok(comparison) => {
                    tail.push(comparison);
                    assert(comparison_views(tail@) == comparison_views(seen).push(
                        comparison_view(comparison),
                    ));
                },
                Err(error) => {
                    return Err(error);
                },
            }
        }
        Ok(Program::Comparisons(Comparisons::new(first, List::new(head, tail))))
    }

    /// The program that the tokens from where the parser stands make up.
    pub fn parse(self) -> (result: Result<Program, SyntacticalError>)
        ensures
            match result {
                Ok(program) => rules::program(self.items(), self.position()) == Ok::<
                    _,
                    SyntacticalError,
                >(program_view(program)),
                Err(error) => rules::program(self.items(), self.position()) == Err::<
                    crate::grammar::view::ProgramView,
                    _,
                >(error),
            },
    {
        let mut parser = self;
        let first = match parser.parse_expression() {
            Ok(first) => first,
            Err(error) => {
                return Err(error);
            },
        };
        if parser.at_comparator() {
            parser.parse_comparisons(first)
        } else {
            parser.parse_expressions(first)
        }
    }
}

impl std::str::FromStr for Program {
    type Err = SyntacticalError;

    /// The program that `source` holds: see [`parse`].
    fn from_str(source: &str) -> (result: Result<Program, SyntacticalError>)
        ensures
            match result {
                Ok(program) => rules::program(scan_of(source@), 0) == Ok::<_, SyntacticalError>(
                    program_view(program),
                ),
                Err(error) => rules::program(scan_of(source@), 0) == Err::<
                    crate::grammar::view::ProgramView,
                    _,
                >(error),
            },
    {
        parse(source)
    }
}

/// The program that `source` holds.
pub fn parse(source: &str) -> (result: Result<Program, SyntacticalError>)
    ensures
        match result {
            Ok(program) => rules::program(scan_of(source@), 0) == Ok::<_, SyntacticalError>(
                program_view(program),
            ),
            Err(error) => rules::program(scan_of(source@), 0) == Err::<
                crate::grammar::view::ProgramView,
                _,
            >(error),
        },
{
    Parser::from_source(source).parse()
}

} // verus!
