//! The errors of the three stages: scanning, parsing and evaluation.

pub mod lexical;
pub mod runtime;
pub mod syntactical;
