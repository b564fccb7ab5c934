//! Positions in a source text and the spans of text that tokens are made of.

use vstd::prelude::*;
use vstd::string::StringExecFns;

verus! {

/// A position in a source text. Lines, columns and offsets count characters
/// and start at zero.
#[derive(Clone, Copy, Debug, PartialEq, Eq, Structural)]
pub struct Location {
    pub line: usize,
    pub column: usize,
    pub offset: usize,
}

/// The number of line feeds among the first `position` characters of `text`.
pub open spec fn line_of(text: Seq<char>, position: int) -> nat
    decreases position,
{
    if position <= 0 || position > text.len() {
        0
    } else if text[position - 1] == '\n' {
        line_of(text, position - 1) + 1
    } else {
        line_of(text, position - 1)
    }
}

/// The number of characters between `position` and the start of its line.
pub open spec fn column_of(text: Seq<char>, position: int) -> nat
    decreases position,
{
    if position <= 0 || position > text.len() {
        0
    } else if text[position - 1] == '\n' {
        0
    } else {
        column_of(text, position - 1) + 1
    }
}

/// The location of the character at `position` in `text`, or of the end of
/// `text` where `position` is its length.
pub open spec fn location_of(text: Seq<char>, position: int) -> Location {
    Location {
        line: line_of(text, position) as usize,
        column: column_of(text, position) as usize,
        offset: position as usize,
    }
}

/// A line or a column never exceeds the offset it belongs to.
pub proof fn lemma_location_within_offset(text: Seq<char>, position: int)
    requires
        0 <= position <= text.len(),
    ensures
        line_of(text, position) <= position,
        column_of(text, position) <= position,
    decreases position,
{
    if position > 0 {
        lemma_location_within_offset(text, position - 1);
    }
}

impl Location {
    pub fn new(line: usize, column: usize, offset: usize) -> (location: Location)
        ensures
            location == (Location { line, column, offset }),
    {
        Location { line, column, offset }
    }

    /// The location just behind `text`: where a scanner stands once it has read
    /// all of it.
    pub fn of(text: &str) -> (location: Location)
        ensures
            location == location_of(text@, text@.len() as int),
    {
        let mut line: usize = 0;
        let mut column: usize = 0;
        let mut offset: usize = 0;
        let length = text.unicode_len();
        while offset < length
            invariant
                offset <= length == text@.len(),
                line == line_of(text@, offset as int),
                column == column_of(text@, offset as int),
            decreases length - offset,
        {
            proof {
                lemma_location_within_offset(text@, offset as int);
            }
            if text.get_char(offset) == '\n' {
                line += 1;
                column = 0;
            } else {
                column += 1;
            }
            offset += 1;
        }
        Location { line, column, offset }
    }

    pub fn line(&self) -> (line: usize)
        ensures
            line == self.line,
    {
        self.line
    }

    pub fn column(&self) -> (column: usize)
        ensures
            column == self.column,
    {
        self.column
    }

    pub fn offset(&self) -> (offset: usize)
        ensures
            offset == self.offset,
    {
        self.offset
    }
}

impl Default for Location {
    /// The start of a text.
    fn default() -> (location: Location)
        ensures
            location == (Location { line: 0, column: 0, offset: 0 }),
    {
        Location { line: 0, column: 0, offset: 0 }
    }
}

/// A span of source text together with the location of its first character.
#[derive(Debug)]
pub struct Lexeme {
    location: Location,
    text: String,
}

/// What a [`Lexeme`] holds.
pub struct LexemeView {
    pub location: Location,
    pub text: Seq<char>,
}

impl View for Lexeme {
    type V = LexemeView;

    closed spec fn view(&self) -> LexemeView {
        LexemeView { location: self.location, text: self.text@ }
    }
}

impl Lexeme {
    pub fn new(location: Location, text: &str) -> (lexeme: Lexeme)
        ensures
            lexeme@ == (LexemeView { location, text: text@ }),
    {
        Lexeme { location, text: String::from_str(text) }
    }

    /// A lexeme that takes ownership of its text.
    pub fn from_string(location: Location, text: String) -> (lexeme: Lexeme)
        ensures
            lexeme@ == (LexemeView { location, text: text@ }),
    {
        Lexeme { location, text }
    }

    /// Where the text of this lexeme begins.
    pub fn location(&self) -> (location: Location)
        ensures
            location == self@.location,
    {
        self.location
    }

    /// The text of this lexeme as it stands in the source.
    pub fn as_str(&self) -> (text: &str)
        ensures
            text@ == self@.text,
    {
        self.text.as_str()
    }

    /// The number of characters of this lexeme.
    pub fn length(&self) -> (length: usize)
        ensures
            length == self@.text.len(),
    {
        self.text.as_str().unicode_len()
    }
}

impl Clone for Lexeme {
    fn clone(&self) -> (copy: Lexeme)
        ensures
            copy == *self,
    {
        Lexeme { location: self.location, text: self.text.clone() }
    }
}

impl PartialEq for Lexeme {
    /// Lexemes are equal when their texts are, wherever they stand.
    fn eq(&self, other: &Lexeme) -> (equal: bool) {
        self.text == other.text
    }
}

impl Eq for Lexeme {

}

impl vstd::std_specs::cmp::PartialEqSpecImpl for Lexeme {
    open spec fn obeys_eq_spec() -> bool {
        true
    }

    open spec fn eq_spec(&self, other: &Lexeme) -> bool {
        self@.text == other@.text
    }
}

} // verus!
