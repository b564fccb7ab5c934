//! A scanner, a parser and an interpreter for a small language of arithmetic
//! and of functions that are chosen by the patterns of their parameters.
//!
//! A source text goes through three stages, each with errors of its own:
//!
//! - [`scanner`] turns characters into tokens;
//! - [`parser`] turns tokens into the syntax trees of [`grammar`];
//! - [`runtime`] evaluates a tree in an environment of scopes and functions.
//!
//! What each stage does is stated once as a mathematical function of its
//! input, and the code of the stage is proved to compute that function:
//! [`scanner::scan_of`] for the tokens of a text, [`parser::rules::program`]
//! for the tree of a sequence of tokens, [`runtime::semantics::program`] for
//! the value of a tree and what its evaluation does to the environment.
//! [`runtime::interpret::meaning`] puts the three together.
//!
//! ```text
//! @factorial(@n = 0) = 1
//! @factorial(@n > 0) = n * factorial(n - 1)
//!
//! factorial(5)
//! ```
//!
//! A program is a sequence of expressions like this one, and its value is
//! that of the last, or it is one chain of comparisons, such as
//! `2 * 2 + (4 ^ 2 + 5 ^ 2) ^ .5 = 4 + 6.4 ~ 0.1`.

pub mod command;
pub mod errors;
pub mod grammar;
pub mod lexeme;
pub mod parser;
pub mod runtime;
pub mod scanner;
pub mod token;
pub mod unicode;

pub use crate::errors::lexical::LexicalError;
pub use crate::errors::runtime::RuntimeError;
pub use crate::errors::syntactical::SyntacticalError;
pub use crate::grammar::program::Program;
pub use crate::lexeme::{Lexeme, Location};
pub use crate::parser::{parse, Parser};
pub use crate::runtime::interpret::Interpreter;
pub use crate::runtime::value::Value;
pub use crate::scanner::Scanner;
pub use crate::token::{Kind, Token};
