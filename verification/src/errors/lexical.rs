//! Errors that the scanner reports.

use vstd::prelude::*;
use vstd::string::StringExecFns;
use crate::lexeme::{Lexeme, LexemeView};

verus! {

/// The kind of a lexical error.
#[derive(Clone, Copy, Debug, PartialEq, Eq, Structural)]
pub enum ErrorKind {
    /// A number that is no numeral: a point without digits, or an integer part
    /// with a needless leading zero.
    Number,
    /// A run of characters that no token can hold.
    Invalid,
}

impl ErrorKind {
    /// The name of this kind in capitals.
    pub open spec fn name(self) -> Seq<char> {
        match self {
            ErrorKind::Number => "NUMBER"@,
            ErrorKind::Invalid => "INVALID"@,
        }
    }

    /// The name of this kind in capitals.
    pub fn to_string(&self) -> (text: String)
        ensures
            text@ == self.name(),
    {
        match self {
            ErrorKind::Number => String::from_str("NUMBER"),
            ErrorKind::Invalid => String::from_str("INVALID"),
        }
    }
}

/// An error on one lexeme. The scanner goes on behind the lexeme.
#[derive(Debug)]
pub struct LexicalError {
    lexeme: Lexeme,
    kind: ErrorKind,
}

/// What a [`LexicalError`] holds.
pub struct LexicalErrorView {
    pub lexeme: LexemeView,
    pub kind: ErrorKind,
}

impl View for LexicalError {
    type V = LexicalErrorView;

    closed spec fn view(&self) -> LexicalErrorView {
        LexicalErrorView { lexeme: self.lexeme@, kind: self.kind }
    }
}

impl LexicalError {
    pub fn new(lexeme: Lexeme, kind: ErrorKind) -> (error: LexicalError)
        ensures
            error@ == (LexicalErrorView { lexeme: lexeme@, kind }),
    {
        LexicalError { lexeme, kind }
    }

    /// The text that this error is about.
    pub fn lexeme(&self) -> (lexeme: &Lexeme)
        ensures
            lexeme@ == self@.lexeme,
    {
        &self.lexeme
    }

    pub fn kind(&self) -> (kind: &ErrorKind)
        ensures
            *kind == self@.kind,
    {
        &self.kind
    }

    /// What [`LexicalError::to_string`] returns.
    pub open spec fn message(self) -> Seq<char> {
        "Encountered a "@ + self@.kind.name() + " error during lexical analysis on "@
            + self@.lexeme.text
    }

    /// A sentence that names the kind of this error and quotes its text.
    pub fn to_string(&self) -> (text: String)
        ensures
            text@ == self.message(),
    {
        let mut text = String::from_str("Encountered a ");
        let kind = self.kind.to_string();
        text.append(kind.as_str());
        text.append(" error during lexical analysis on ");
        text.append(self.lexeme.as_str());
        text
    }
}

impl Clone for LexicalError {
    fn clone(&self) -> (copy: LexicalError)
        ensures
            copy == *self,
    {
        LexicalError { lexeme: self.lexeme.clone(), kind: self.kind }
    }
}

impl PartialEq for LexicalError {
    /// Errors are equal when their kinds and their texts are, wherever they
    /// stand.
    fn eq(&self, other: &LexicalError) -> (equal: bool) {
        self.kind == other.kind && self.lexeme == other.lexeme
    }
}

impl Eq for LexicalError {

}

impl vstd::std_specs::cmp::PartialEqSpecImpl for LexicalError {
    open spec fn obeys_eq_spec() -> bool {
        true
    }

    open spec fn eq_spec(&self, other: &LexicalError) -> bool {
        self@.kind == other@.kind && self@.lexeme.text == other@.lexeme.text
    }
}

} // verus!
