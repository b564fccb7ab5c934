//! The syntax trees of the language.

pub mod assignment;
pub mod comparison;
pub mod expression;
pub mod list;
pub mod program;
pub mod view;
