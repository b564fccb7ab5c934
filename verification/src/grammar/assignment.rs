//! Definitions of values and functions, and the patterns of parameters.

use vstd::prelude::*;
use crate::grammar::comparison::Comparator;
use crate::grammar::expression::Expression;
use crate::grammar::list::List;
use crate::lexeme::Lexeme;

verus! {

/// assignment → function "=" block ;
#[derive(Debug)]
pub struct Assignment {
    pub function: Function,
    pub block: Block,
}

impl Assignment {
    pub fn new(function: Function, block: Block) -> (assignment: Assignment)
        ensures
            assignment.function == function,
            assignment.block == block,
    {
        Assignment { function, block }
    }

    /// The name and the parameters that are defined.
    pub fn function(&self) -> (function: &Function)
        ensures
            *function == self.function,
    {
        &self.function
    }

    /// What a call of the function evaluates.
    pub fn block(&self) -> (block: &Block)
        ensures
            *block == self.block,
    {
        &self.block
    }
}

/// block → expression | "[" expression+ "]" ;
pub type Block = List<Expression>;

/// pattern → function | refinement | bounds ;
#[derive(Debug)]
pub enum Pattern {
    /// A name, which takes any argument, or the shape of a function that the
    /// argument must have.
    Function(Box<Function>),
    Refinement(Refinement),
    Bounds(Bounds),
}

/// function → name ( "(" parameters ")" )? ;
#[derive(Debug)]
pub struct Function {
    pub name: Name,
    pub parameters: Option<Parameters>,
}

impl Function {
    pub fn new(name: Name, parameters: Option<Parameters>) -> (function: Function)
        ensures
            function.name == name,
            function.parameters == parameters,
    {
        Function { name, parameters }
    }

    pub fn name(&self) -> (name: &Name)
        ensures
            *name == self.name,
    {
        &self.name
    }

    /// The patterns that arguments are held against; `None` for a plain value.
    pub fn parameters(&self) -> (parameters: Option<&Parameters>)
        ensures
            parameters == match self.parameters {
                Some(list) => Some(&list),
                None => None,
            },
    {
        self.parameters.as_ref()
    }
}

/// parameters → pattern ( "," pattern )* ;
pub type Parameters = List<Pattern>;

/// name → "_" | "@" IDENTIFIER ;
#[derive(Debug)]
pub enum Name {
    Anonymous,
    Identified(Lexeme),
}

/// refinement → name comparator arithmetic ;
#[derive(Debug)]
pub struct Refinement {
    pub name: Name,
    pub comparator: Comparator,
    pub constraint: Expression,
}

impl Refinement {
    pub fn new(name: Name, comparator: Comparator, constraint: Expression) -> (refinement:
        Refinement)
        ensures
            refinement.name == name,
            refinement.comparator == comparator,
            refinement.constraint == constraint,
    {
        Refinement { name, comparator, constraint }
    }

    pub fn name(&self) -> (name: &Name)
        ensures
            *name == self.name,
    {
        &self.name
    }

    pub fn comparator(&self) -> (comparator: &Comparator)
        ensures
            *comparator == self.comparator,
    {
        &self.comparator
    }

    /// What an argument is compared with.
    pub fn constraint(&self) -> (constraint: &Expression)
        ensures
            *constraint == self.constraint,
    {
        &self.constraint
    }
}

/// One side of a [`Bounds`] pattern.
#[derive(Debug)]
pub struct Bound {
    pub constraint: Expression,
    pub inequality: Inequality,
}

impl Bound {
    pub fn new(constraint: Expression, inequality: Inequality) -> (bound: Bound)
        ensures
            bound.constraint == constraint,
            bound.inequality == inequality,
    {
        Bound { constraint, inequality }
    }

    /// The limit on this side.
    pub fn value(&self) -> (constraint: &Expression)
        ensures
            *constraint == self.constraint,
    {
        &self.constraint
    }

    /// How the limit and an argument are compared.
    pub fn inequality(&self) -> (inequality: &Inequality)
        ensures
            *inequality == self.inequality,
    {
        &self.inequality
    }
}

/// bounds → arithmetic inequality name inequality arithmetic ;
#[derive(Debug)]
pub struct Bounds {
    pub left: Bound,
    pub name: Name,
    pub right: Bound,
}

impl Bounds {
    pub fn new(left: Bound, name: Name, right: Bound) -> (bounds: Bounds)
        ensures
            bounds.left == left,
            bounds.name == name,
            bounds.right == right,
    {
        Bounds { left, name, right }
    }

    /// The limit that stands before the name.
    pub fn left(&self) -> (left: &Bound)
        ensures
            *left == self.left,
    {
        &self.left
    }

    pub fn name(&self) -> (name: &Name)
        ensures
            *name == self.name,
    {
        &self.name
    }

    /// The limit that stands behind the name.
    pub fn right(&self) -> (right: &Bound)
        ensures
            *right == self.right,
    {
        &self.right
    }
}

/// inequality → "<" | "<=" | ">" | ">=" ;
#[derive(Clone, Copy, Debug, PartialEq, Eq, Structural)]
pub enum Inequality {
    LessThan,
    LessThanOrEqualTo,
    GreaterThan,
    GreaterThanOrEqualTo,
}

} // verus!
