//! The tokens that the scanner hands to the parser.

use vstd::prelude::*;
use vstd::string::StringExecFns;
use crate::lexeme::{Lexeme, LexemeView};

verus! {

/// The kind of a token: a punctuation mark, an operator, or one of the two
/// classes of literal.
#[derive(Clone, Copy, Debug, PartialEq, Eq, Structural)]
pub enum Kind {
    /// `+`
    Plus,
    /// `-`
    Minus,
    /// `*`
    Star,
    /// `/`
    Slash,
    /// `^`
    Caret,
    /// `=`
    Equal,
    /// `~`
    Tilde,
    /// `%`
    Percent,
    /// `_`
    Underscore,
    /// `@`
    At,
    /// `(`
    LeftParenthesis,
    /// `)`
    RightParenthesis,
    /// `[`
    LeftBracket,
    /// `]`
    RightBracket,
    /// `{`
    LeftBrace,
    /// `}`
    RightBrace,
    /// `,`
    Comma,
    /// `<`
    LessThan,
    /// `>`
    GreaterThan,
    /// `<=`
    LessThanOrEqualTo,
    /// `>=`
    GreaterThanOrEqualTo,
    /// `<>`
    NotEqual,
    /// A run of digits with an optional fraction.
    Number,
    /// A name.
    Identifier,
}

impl Kind {
    /// The kind of the token that is the single character `c`, if there is one.
    pub open spec fn of_mark(c: char) -> Option<Kind> {
        if c == '+' {
            Some(Kind::Plus)
        } else if c == '-' {
            Some(Kind::Minus)
        } else if c == '*' {
            Some(Kind::Star)
        } else if c == '/' {
            Some(Kind::Slash)
        } else if c == '^' {
            Some(Kind::Caret)
        } else if c == '=' {
            Some(Kind::Equal)
        } else if c == '~' {
            Some(Kind::Tilde)
        } else if c == '%' {
            Some(Kind::Percent)
        } else if c == '_' {
            Some(Kind::Underscore)
        } else if c == '@' {
            Some(Kind::At)
        } else if c == '(' {
            Some(Kind::LeftParenthesis)
        } else if c == ')' {
            Some(Kind::RightParenthesis)
        } else if c == '[' {
            Some(Kind::LeftBracket)
        } else if c == ']' {
            Some(Kind::RightBracket)
        } else if c == '{' {
            Some(Kind::LeftBrace)
        } else if c == '}' {
            Some(Kind::RightBrace)
        } else if c == ',' {
            Some(Kind::Comma)
        } else {
            None
        }
    }

    /// See [`Kind::of_mark`].
    pub fn mark(c: char) -> (kind: Option<Kind>)
        ensures
            kind == Kind::of_mark(c),
    {
        if c == '+' {
            Some(Kind::Plus)
        } else if c == '-' {
            Some(Kind::Minus)
        } else if c == '*' {
            Some(Kind::Star)
        } else if c == '/' {
            Some(Kind::Slash)
        } else if c == '^' {
            Some(Kind::Caret)
        } else if c == '=' {
            Some(Kind::Equal)
        } else if c == '~' {
            Some(Kind::Tilde)
        } else if c == '%' {
            Some(Kind::Percent)
        } else if c == '_' {
            Some(Kind::Underscore)
        } else if c == '@' {
            Some(Kind::At)
        } else if c == '(' {
            Some(Kind::LeftParenthesis)
        } else if c == ')' {
            Some(Kind::RightParenthesis)
        } else if c == '[' {
            Some(Kind::LeftBracket)
        } else if c == ']' {
            Some(Kind::RightBracket)
        } else if c == '{' {
            Some(Kind::LeftBrace)
        } else if c == '}' {
            Some(Kind::RightBrace)
        } else if c == ',' {
            Some(Kind::Comma)
        } else {
            None
        }
    }

    /// The text that every token of this kind has; the two classes of literal
    /// are named instead.
    pub open spec fn symbol(self) -> Seq<char> {
        match self {
            Kind::Plus => "+"@,
            Kind::Minus => "-"@,
            Kind::Star => "*"@,
            Kind::Slash => "/"@,
            Kind::Caret => "^"@,
            Kind::Equal => "="@,
            Kind::Tilde => "~"@,
            Kind::Percent => "%"@,
            Kind::Underscore => "_"@,
            Kind::At => "@"@,
            Kind::LeftParenthesis => "("@,
            Kind::RightParenthesis => ")"@,
            Kind::LeftBracket => "["@,
            Kind::RightBracket => "]"@,
            Kind::LeftBrace => "{"@,
            Kind::RightBrace => "}"@,
            Kind::Comma => ","@,
            Kind::LessThan => "<"@,
            Kind::GreaterThan => ">"@,
            Kind::LessThanOrEqualTo => "<="@,
            Kind::GreaterThanOrEqualTo => ">="@,
            Kind::NotEqual => "<>"@,
            Kind::Number => "NUMBER"@,
            Kind::Identifier => "IDENTIFIER"@,
        }
    }

    /// See [`Kind::symbol`].
    pub fn to_string(&self) -> (text: String)
        ensures
            text@ == self.symbol(),
    {
        String::from_str(
            match self {
                Kind::Plus => "+",
                Kind::Minus => "-",
                Kind::Star => "*",
                Kind::Slash => "/",
                Kind::Caret => "^",
                Kind::Equal => "=",
                Kind::Tilde => "~",
                Kind::Percent => "%",
                Kind::Underscore => "_",
                Kind::At => "@",
                Kind::LeftParenthesis => "(",
                Kind::RightParenthesis => ")",
                Kind::LeftBracket => "[",
                Kind::RightBracket => "]",
                Kind::LeftBrace => "{",
                Kind::RightBrace => "}",
                Kind::Comma => ",",
                Kind::LessThan => "<",
                Kind::GreaterThan => ">",
                Kind::LessThanOrEqualTo => "<=",
                Kind::GreaterThanOrEqualTo => ">=",
                Kind::NotEqual => "<>",
                Kind::Number => "NUMBER",
                Kind::Identifier => "IDENTIFIER",
            },
        )
    }

    /// Whether this kind is one of the six relational operators.
    pub open spec fn is_relational(self) -> bool {
        self == Kind::LessThan || self == Kind::GreaterThan || self == Kind::LessThanOrEqualTo
            || self == Kind::GreaterThanOrEqualTo || self == Kind::Equal || self == Kind::NotEqual
    }
}

/// A lexeme and what the scanner took it for.
#[derive(Debug)]
pub struct Token {
    lexeme: Lexeme,
    kind: Kind,
}

/// What a [`Token`] holds.
pub struct TokenView {
    pub lexeme: LexemeView,
    pub kind: Kind,
}

impl View for Token {
    type V = TokenView;

    closed spec fn view(&self) -> TokenView {
        TokenView { lexeme: self.lexeme@, kind: self.kind }
    }
}

impl Token {
    pub fn new(lexeme: Lexeme, kind: Kind) -> (token: Token)
        ensures
            token@ == (TokenView { lexeme: lexeme@, kind }),
    {
        Token { lexeme, kind }
    }

    pub fn lexeme(&self) -> (lexeme: &Lexeme)
        ensures
            lexeme@ == self@.lexeme,
    {
        &self.lexeme
    }

    pub fn kind(&self) -> (kind: Kind)
        ensures
            kind == self@.kind,
    {
        self.kind
    }
}

impl Clone for Token {
    fn clone(&self) -> (copy: Token)
        ensures
            copy == *self,
    {
        Token { lexeme: self.lexeme.clone(), kind: self.kind }
    }
}

impl PartialEq for Token {
    /// Tokens are equal when their kinds and their texts are, wherever they
    /// stand.
    fn eq(&self, other: &Token) -> (equal: bool) {
        self.kind == other.kind && self.lexeme == other.lexeme
    }
}

impl Eq for Token {

}

impl vstd::std_specs::cmp::PartialEqSpecImpl for Token {
    open spec fn obeys_eq_spec() -> bool {
        true
    }

    open spec fn eq_spec(&self, other: &Token) -> bool {
        self@.kind == other@.kind && self@.lexeme.text == other@.lexeme.text
    }
}

} // verus!
