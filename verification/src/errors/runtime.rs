//! Errors that evaluation reports.

use vstd::prelude::*;
use vstd::string::StringExecFns;
use crate::errors::syntactical::SyntacticalError;

verus! {

/// Why a program has no value. Evaluation stops at the first error.
#[derive(Clone, Copy, Debug, PartialEq, Eq, Structural)]
pub enum RuntimeError {
    /// A name is read that no scope in reach defines.
    UnboundName,
    /// A function is called with arguments that none of its clauses accepts.
    NoMatchingDefinition,
    /// An operand is of the wrong kind: a number is asked for and a boolean
    /// or a function is there, or a function is asked for and there is none.
    TypeMismatch,
    /// A division or a remainder by zero.
    DivisionByZero,
    /// A number beyond the range that numbers have.
    Overflow,
    /// A number that exists but cannot be written with the digits that
    /// numbers have, or an operation that has no number for its result.
    Unrepresentable,
    /// Calls are nested deeper than the interpreter allows.
    DepthExceeded,
    /// The source text is no program.
    Syntax(SyntacticalError),
}

impl RuntimeError {
    /// What [`to_string`](Self::to_string) returns.
    pub open spec fn message(self) -> Seq<char> {
        match self {
            RuntimeError::UnboundName => "A name is not defined"@,
            RuntimeError::NoMatchingDefinition => "No definition of the function accepts the arguments"@,
            RuntimeError::TypeMismatch => "An operand is of the wrong kind"@,
            RuntimeError::DivisionByZero => "Division by zero"@,
            RuntimeError::Overflow => "A number is out of range"@,
            RuntimeError::Unrepresentable => "A number cannot be represented"@,
            RuntimeError::DepthExceeded => "Calls are nested too deep"@,
            RuntimeError::Syntax(error) => error.message(),
        }
    }

    /// A sentence that says what went wrong.
    pub fn to_string(&self) -> (text: String)
        ensures
            text@ == self.message(),
    {
        match self {
            RuntimeError::UnboundName => String::from_str("A name is not defined"),
            RuntimeError::NoMatchingDefinition => String::from_str(
                "No definition of the function accepts the arguments",
            ),
            RuntimeError::TypeMismatch => String::from_str("An operand is of the wrong kind"),
            RuntimeError::DivisionByZero => String::from_str("Division by zero"),
            RuntimeError::Overflow => String::from_str("A number is out of range"),
            RuntimeError::Unrepresentable => String::from_str("A number cannot be represented"),
            RuntimeError::DepthExceeded => String::from_str("Calls are nested too deep"),
            RuntimeError::Syntax(error) => error.to_string(),
        }
    }
}

} // verus!
