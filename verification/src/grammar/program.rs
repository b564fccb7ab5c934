//! The root of a syntax tree.

use vstd::prelude::*;
use crate::grammar::comparison::Comparisons;
use crate::grammar::expression::Expressions;

verus! {

/// What a whole source text is: expressions one after another, or a chain
/// of comparisons.
#[derive(Debug)]
pub enum Program {
    /// program → expression+ EOF ;
    Expressions(Expressions),
    /// program → expression comparison+ EOF ;
    Comparisons(Comparisons),
}

} // verus!
