//! Errors that the parser reports.

use vstd::prelude::*;
use vstd::string::StringExecFns;

verus! {

/// Why a sequence of tokens is no program. The parser stops at the first
/// error.
#[derive(Clone, Copy, Debug, PartialEq, Eq, Structural)]
pub enum SyntacticalError {
    /// The token at hand is not one that the grammar allows there.
    NoMatch,
    /// The tokens end where the grammar asks for one more: with more input
    /// the text may still become a program.
    Incomplete,
}

impl SyntacticalError {
    /// What [`to_string`](Self::to_string) returns.
    pub open spec fn message(self) -> Seq<char> {
        match self {
            SyntacticalError::NoMatch => "Encountered a token that the grammar does not allow there"@,
            SyntacticalError::Incomplete => "Reached the end of the input in the middle of a rule"@,
        }
    }

    /// A sentence that says what went wrong.
    pub fn to_string(&self) -> (text: String)
        ensures
            text@ == self.message(),
    {
        match self {
            SyntacticalError::NoMatch => String::from_str(
                "Encountered a token that the grammar does not allow there",
            ),
            SyntacticalError::Incomplete => String::from_str(
                "Reached the end of the input in the middle of a rule",
            ),
        }
    }
}

} // verus!
