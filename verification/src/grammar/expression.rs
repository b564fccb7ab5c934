//! Expressions. Each level of precedence has a rule of its own, so that the
//! shape of a tree says how tightly its operators bind.

use vstd::prelude::*;
use std::rc::Rc;
use crate::grammar::assignment::Assignment;
use crate::grammar::list::List;
use crate::lexeme::Lexeme;

verus! {

/// expressions → expression+ ;
pub type Expressions = List<Expression>;

/// expression → assignment | arithmetic ;
#[derive(Debug)]
pub enum Expression {
    Arithmetic(Box<Arithmetic>),
    /// A definition is shared with the functions that it defines.
    Assignment(Rc<Assignment>),
}

impl Expression {
    pub fn from_arithmetic(arithmetic: Arithmetic) -> (expression: Expression)
        ensures
            expression == Expression::Arithmetic(Box::new(arithmetic)),
    {
        Expression::Arithmetic(Box::new(arithmetic))
    }

    pub fn from_assignment(assignment: Assignment) -> (expression: Expression)
        ensures
            expression == Expression::Assignment(Rc::new(assignment)),
    {
        Expression::Assignment(Rc::new(assignment))
    }
}

/// arithmetic → epsilon ;
#[derive(Debug)]
pub struct Arithmetic(pub Epsilon);

impl Arithmetic {
    pub fn new(epsilon: Epsilon) -> (arithmetic: Arithmetic)
        ensures
            arithmetic.0 == epsilon,
    {
        Arithmetic(epsilon)
    }

    /// The rule that this one wraps.
    pub fn epsilon(&self) -> (epsilon: &Epsilon)
        ensures
            *epsilon == self.0,
    {
        &self.0
    }
}

/// epsilon → modulo ( "~" modulo )? ;
#[derive(Debug)]
pub struct Epsilon {
    pub lhs: Modulo,
    pub rhs: Option<Modulo>,
}

impl Epsilon {
    pub fn new(lhs: Modulo, rhs: Option<Modulo>) -> (epsilon: Epsilon)
        ensures
            epsilon.lhs == lhs,
            epsilon.rhs == rhs,
    {
        Epsilon { lhs, rhs }
    }

    /// The value.
    pub fn lhs(&self) -> (lhs: &Modulo)
        ensures
            *lhs == self.lhs,
    {
        &self.lhs
    }

    /// The tolerance, if there is one.
    pub fn rhs(&self) -> (rhs: Option<&Modulo>)
        ensures
            rhs == match self.rhs {
                Some(modulo) => Some(&modulo),
                None => None,
            },
    {
        self.rhs.as_ref()
    }
}

/// modulo → sum ( "%" sum )* ;
pub type Modulo = List<Sum>;

/// sum → product ( ( "+" | "-" ) product )* ;
pub type Sum = List<Product, AddOrSubtract>;

/// An operator of the rule `sum` and the operand to its right.
#[derive(Debug)]
pub enum AddOrSubtract {
    Add(Product),
    Subtract(Product),
}

/// product → power ( ( "*" | "/" ) power )* ;
pub type Product = List<Power, MultiplyOrDivide>;

/// An operator of the rule `product` and the operand to its right.
#[derive(Debug)]
pub enum MultiplyOrDivide {
    Multiply(Power),
    Divide(Power),
}

/// power → primary ( "^" primary )* ;
pub type Power = List<Primary>;

/// primary → number | call | grouping ;
#[derive(Debug)]
pub enum Primary {
    Number(Number),
    Call(Call),
    Grouping(Grouping),
}

/// number → "-"? NUMBER ;
#[derive(Debug)]
pub struct Number {
    pub negative: bool,
    pub number: Lexeme,
}

impl Number {
    pub fn new(negative: bool, number: Lexeme) -> (literal: Number)
        ensures
            literal.negative == negative,
            literal.number == number,
    {
        Number { negative, number }
    }

    /// Whether a minus sign stands before the numeral.
    pub fn is_negative(&self) -> (negative: bool)
        ensures
            negative == self.negative,
    {
        self.negative
    }

    /// The numeral, without its sign.
    pub fn number(&self) -> (number: &Lexeme)
        ensures
            *number == self.number,
    {
        &self.number
    }
}

/// call → IDENTIFIER ( "(" arguments ")" )* ;
#[derive(Debug)]
pub struct Call {
    pub identifier: Lexeme,
    pub arguments: Vec<Arguments>,
}

impl Call {
    pub fn new(identifier: Lexeme, arguments: Vec<Arguments>) -> (call: Call)
        ensures
            call.identifier == identifier,
            call.arguments == arguments,
    {
        Call { identifier, arguments }
    }

    /// The name that is called or read.
    pub fn identifier(&self) -> (identifier: &Lexeme)
        ensures
            *identifier == self.identifier,
    {
        &self.identifier
    }

    /// The lists of arguments, one for each pair of parentheses; none where
    /// the name is only read.
    pub fn arguments(&self) -> (arguments: &[Arguments])
        ensures
            arguments@ == self.arguments@,
    {
        self.arguments.as_slice()
    }
}

/// arguments → expression ( "," expression )* ;
pub type Arguments = List<Expression>;

/// grouping → "(" expression ")" ;
#[derive(Debug)]
pub struct Grouping(pub Expression);

impl Grouping {
    pub fn new(inner: Expression) -> (grouping: Grouping)
        ensures
            grouping.0 == inner,
    {
        Grouping(inner)
    }

    /// The expression between the parentheses.
    pub fn inner(&self) -> (inner: &Expression)
        ensures
            *inner == self.0,
    {
        &self.0
    }
}

} // verus!
