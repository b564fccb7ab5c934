//! Chains of comparisons, the second form of a program.

use vstd::prelude::*;
use crate::grammar::expression::Expression;
use crate::grammar::list::List;

verus! {

/// comparator → "<" | "<=" | ">" | ">=" | "=" | "<>" ;
#[derive(Clone, Copy, Debug, PartialEq, Eq, Structural)]
pub enum Comparator {
    LessThan,
    LessThanOrEqualTo,
    GreaterThan,
    GreaterThanOrEqualTo,
    EqualTo,
    NotEqualTo,
}

/// comparison → comparator expression ;
#[derive(Debug)]
pub struct Comparison {
    pub comparator: Comparator,
    pub rhs: Expression,
}

impl Comparison {
    pub fn new(comparator: Comparator, rhs: Expression) -> (comparison: Comparison)
        ensures
            comparison.comparator == comparator,
            comparison.rhs == rhs,
    {
        Comparison { comparator, rhs }
    }

    pub fn comparator(&self) -> (comparator: &Comparator)
        ensures
            *comparator == self.comparator,
    {
        &self.comparator
    }

    /// The expression to the right of the comparator.
    pub fn rhs(&self) -> (rhs: &Expression)
        ensures
            *rhs == self.rhs,
    {
        &self.rhs
    }
}

/// comparisons → expression comparison+ ;
#[derive(Debug)]
pub struct Comparisons {
    pub lhs: Expression,
    pub comparisons: List<Comparison>,
}

impl Comparisons {
    pub fn new(lhs: Expression, comparisons: List<Comparison>) -> (chain: Comparisons)
        ensures
            chain.lhs == lhs,
            chain.comparisons == comparisons,
    {
        Comparisons { lhs, comparisons }
    }

    /// The expression that the chain begins with.
    pub fn lhs(&self) -> (lhs: &Expression)
        ensures
            *lhs == self.lhs,
    {
        &self.lhs
    }

    /// The comparisons of the chain, from left to right.
    pub fn comparisons(&self) -> (comparisons: &List<Comparison>)
        ensures
            *comparisons == self.comparisons,
    {
        &self.comparisons
    }
}

} // verus!
