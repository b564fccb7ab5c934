//! Lexical analysis: from a source text to a sequence of tokens.
//!
//! The scanner reads forward, one token at a time. Blank space and comments,
//! which run from a `;` to the end of the line, separate tokens and are left
//! out. A run of characters that no token can hold becomes a single error, and
//! the scanner goes on behind it.

pub mod framing;

use vstd::prelude::*;
use crate::errors::lexical::{ErrorKind, LexicalError, LexicalErrorView};
use crate::lexeme::{lemma_location_within_offset, location_of, Lexeme, LexemeView, Location};
use crate::token::{Kind, Token, TokenView};
use crate::unicode::{
    ascii_digit,
    is_ascii_digit,
    is_pattern_white_space,
    is_stray,
    is_xid_continue,
    is_xid_start,
    pattern_white_space,
    stray,
    xid_continue,
    xid_start,
};

verus! {

/// `String::push` appends one character to the end of the string.
pub assume_specification[ String::push ](text: &mut String, c: char)
    ensures
        final(text)@ == old(text)@.push(c),
;

/// The classes of characters that the scanner reads in runs.
#[derive(Clone, Copy, Debug, PartialEq, Eq, Structural)]
pub enum Class {
    /// Blank space.
    Blank,
    /// Anything but a line feed.
    Comment,
    /// The ten ASCII digits.
    Digit,
    /// What may follow the first character of an identifier.
    Continue,
    /// What can neither begin a token nor separate two.
    Stray,
}

impl Class {
    /// Whether `c` is of this class.
    pub open spec fn holds(self, c: char) -> bool {
        match self {
            Class::Blank => is_pattern_white_space(c),
            Class::Comment => c != '\n',
            Class::Digit => is_ascii_digit(c),
            Class::Continue => is_xid_continue(c),
            Class::Stray => is_stray(c),
        }
    }

    /// See [`Class::holds`].
    pub fn test(self, c: char) -> (r: bool)
        ensures
            r == self.holds(c),
    {
        match self {
            Class::Blank => pattern_white_space(c),
            Class::Comment => c != '\n',
            Class::Digit => ascii_digit(c),
            Class::Continue => xid_continue(c),
            Class::Stray => stray(c),
        }
    }
}

/// The end of the longest run of characters of `class` that begins at `from`:
/// the first position from there on that holds no such character.
pub open spec fn run_end(text: Seq<char>, from: int, class: Class) -> int
    decreases text.len() - from,
{
    if 0 <= from < text.len() && class.holds(text[from]) {
        run_end(text, from + 1, class)
    } else {
        from
    }
}

/// A run ends at or behind its start, within the text, on a character that is
/// not of its class; up to there every character is.
pub proof fn lemma_run_end(text: Seq<char>, from: int, class: Class)
    requires
        0 <= from <= text.len(),
    ensures
        from <= run_end(text, from, class) <= text.len(),
        run_end(text, from, class) < text.len() ==> !class.holds(
            text[run_end(text, from, class)],
        ),
        forall|i: int| from <= i < run_end(text, from, class) ==> class.holds(#[trigger] text[i]),
    decreases text.len() - from,
{
    if from < text.len() && class.holds(text[from]) {
        lemma_run_end(text, from + 1, class);
    }
}

/// Where the next lexeme begins: the first position from `from` on that is
/// neither blank nor inside a comment. It is the length of the text where
/// nothing but blank space and comments is left.
pub open spec fn token_start(text: Seq<char>, from: int) -> int
    decreases text.len() - from,
{
    let blank_end = run_end(text, from, Class::Blank);
    if 0 <= from <= blank_end < text.len() && text[blank_end] == ';' {
        proof {
            lemma_run_end(text, blank_end + 1, Class::Comment);
        }
        token_start(text, run_end(text, blank_end + 1, Class::Comment))
    } else {
        blank_end
    }
}

/// The next lexeme begins at or behind the position that is asked from, within
/// the text, and on a character that is neither blank nor the start of a comment.
pub proof fn lemma_token_start(text: Seq<char>, from: int)
    requires
        0 <= from <= text.len(),
    ensures
        from <= token_start(text, from) <= text.len(),
        token_start(text, from) < text.len() ==> !is_pattern_white_space(
            text[token_start(text, from)],
        ) && text[token_start(text, from)] != ';',
    decreases text.len() - from,
{
    let blank_end = run_end(text, from, Class::Blank);
    lemma_run_end(text, from, Class::Blank);
    if blank_end < text.len() && text[blank_end] == ';' {
        lemma_run_end(text, blank_end + 1, Class::Comment);
        lemma_token_start(text, run_end(text, blank_end + 1, Class::Comment));
    }
}

/// The end of the numeral that begins at `start` with a digit or a point: the
/// digits of its integer part, then a point and the digits behind it if at
/// least one digit follows the point.
pub open spec fn number_end(text: Seq<char>, start: int) -> int {
    if text[start] == '.' {
        run_end(text, start + 1, Class::Digit)
    } else {
        let whole_end = run_end(text, start, Class::Digit);
        if whole_end + 1 < text.len() && text[whole_end] == '.' && is_ascii_digit(
            text[whole_end + 1],
        ) {
            run_end(text, whole_end + 1, Class::Digit)
        } else {
            whole_end
        }
    }
}

/// Whether the numeral that begins at `start` is well formed: a point is
/// followed by a digit, and an integer part of several digits does not begin
/// with a zero.
pub open spec fn number_is_valid(text: Seq<char>, start: int) -> bool {
    if text[start] == '.' {
        start + 1 < text.len() && is_ascii_digit(text[start + 1])
    } else {
        !(text[start] == '0' && start + 1 < text.len() && is_ascii_digit(text[start + 1]))
    }
}

/// The end of the lexeme that begins at `start`, which holds neither blank
/// space nor the start of a comment.
pub open spec fn lexeme_end(text: Seq<char>, start: int) -> int {
    let c = text[start];
    let follower = if start + 1 < text.len() {
        Some(text[start + 1])
    } else {
        None
    };
    if Kind::of_mark(c) is Some {
        start + 1
    } else if c == '<' {
        if follower == Some('=') || follower == Some('>') {
            start + 2
        } else {
            start + 1
        }
    } else if c == '>' {
        if follower == Some('=') {
            start + 2
        } else {
            start + 1
        }
    } else if c == '.' || is_ascii_digit(c) {
        number_end(text, start)
    } else if is_xid_start(c) {
        run_end(text, start + 1, Class::Continue)
    } else {
        run_end(text, start + 1, Class::Stray)
    }
}

/// What the lexeme that begins at `start` is: the kind of its token, or the
/// kind of error that it is.
pub open spec fn lexeme_kind(text: Seq<char>, start: int) -> Result<Kind, ErrorKind> {
    let c = text[start];
    let follower = if start + 1 < text.len() {
        Some(text[start + 1])
    } else {
        None
    };
    if Kind::of_mark(c) is Some {
        Ok(Kind::of_mark(c)->0)
    } else if c == '<' {
        if follower == Some('=') {
            Ok(Kind::LessThanOrEqualTo)
        } else if follower == Some('>') {
            Ok(Kind::NotEqual)
        } else {
            Ok(Kind::LessThan)
        }
    } else if c == '>' {
        if follower == Some('=') {
            Ok(Kind::GreaterThanOrEqualTo)
        } else {
            Ok(Kind::GreaterThan)
        }
    } else if c == '.' || is_ascii_digit(c) {
        if number_is_valid(text, start) {
            Ok(Kind::Number)
        } else {
            Err(ErrorKind::Number)
        }
    } else if is_xid_start(c) {
        Ok(Kind::Identifier)
    } else {
        Err(ErrorKind::Invalid)
    }
}

/// A lexeme holds at least one character and ends within the text.
pub proof fn lemma_lexeme_end(text: Seq<char>, start: int)
    requires
        0 <= start < text.len(),
    ensures
        start < lexeme_end(text, start) <= text.len(),
{
    lemma_run_end(text, start + 1, Class::Digit);
    lemma_run_end(text, start + 1, Class::Continue);
    lemma_run_end(text, start + 1, Class::Stray);
    lemma_run_end(text, start, Class::Digit);
    let whole_end = run_end(text, start, Class::Digit);
    if whole_end + 1 < text.len() {
        lemma_run_end(text, whole_end + 1, Class::Digit);
    }
}

/// A stray character begins an error that takes the whole run of stray
/// characters that it stands in: the run makes one error, and the character
/// behind it is not stray.
pub proof fn lemma_stray_run_is_one_error(text: Seq<char>, start: int)
    requires
        0 <= start < text.len(),
        is_stray(text[start]),
    ensures
        lexeme_kind(text, start) == Err::<Kind, ErrorKind>(ErrorKind::Invalid),
        lexeme_end(text, start) == run_end(text, start, Class::Stray),
        start < lexeme_end(text, start) <= text.len(),
        forall|i: int| start <= i < lexeme_end(text, start) ==> is_stray(#[trigger] text[i]),
        lexeme_end(text, start) < text.len() ==> !is_stray(text[lexeme_end(text, start)]),
{
    lemma_run_end(text, start, Class::Stray);
}

/// One item of a scan: a token, or an error that stands in its place.
pub type Scanned = Result<TokenView, LexicalErrorView>;

/// The item that the scanner makes of the lexeme that begins at `start`.
pub open spec fn scanned_at(text: Seq<char>, start: int) -> Scanned {
    let lexeme = LexemeView {
        location: location_of(text, start),
        text: text.subrange(start, lexeme_end(text, start)),
    };
    match lexeme_kind(text, start) {
        Ok(kind) => Ok(TokenView { lexeme, kind }),
        Err(kind) => Err(LexicalErrorView { lexeme, kind }),
    }
}

/// Every item of `text` from `from` on, in order.
pub open spec fn scan_from(text: Seq<char>, from: int) -> Seq<Scanned>
    decreases text.len() - from,
{
    let start = token_start(text, from);
    if 0 <= from <= start < text.len() {
        proof {
            lemma_lexeme_end(text, start);
        }
        seq![scanned_at(text, start)] + scan_from(text, lexeme_end(text, start))
    } else {
        Seq::empty()
    }
}

/// What the scanner makes of a whole text.
pub open spec fn scan_of(text: Seq<char>) -> Seq<Scanned> {
    scan_from(text, 0)
}

/// What an item of a scan holds.
pub open spec fn item_view(item: Result<Token, LexicalError>) -> Scanned {
    match item {
        Ok(token) => Ok(token@),
        Err(error) => Err(error@),
    }
}

/// What the items of a scan hold.
pub open spec fn items_view(items: Seq<Result<Token, LexicalError>>) -> Seq<Scanned> {
    Seq::new(items.len(), |i: int| item_view(items[i]))
}

/// A lexical analyser that stands at one position of its source text.
pub struct Scanner {
    source: Vec<char>,
    location: Location,
}

impl Scanner {
    #[verifier::type_invariant]
    spec fn well_formed(self) -> bool {
        &&& self.location.offset <= self.source@.len()
        &&& self.location == location_of(self.source@, self.location.offset as int)
    }

    /// The text that this scanner reads.
    pub closed spec fn source(&self) -> Seq<char> {
        self.source@
    }

    /// How many characters of the source this scanner has left behind.
    pub closed spec fn position(&self) -> int {
        self.location.offset as int
    }

    /// A scanner at the start of `source`.
    pub fn new(source: &str) -> (scanner: Scanner)
        ensures
            scanner.source() == source@,
            scanner.position() == 0,
    {
        let mut characters: Vec<char> = Vec::new();
        for c in it: source.chars()
            invariant
                characters@ == it.seq().take(it.index() as int),
        {
            characters.push(c);
        }
        Scanner { source: characters, location: Location { line: 0, column: 0, offset: 0 } }
    }

    /// The character at `offset` positions from where the scanner stands.
    fn peek(&self, offset: usize) -> (c: Option<char>)
        ensures
            self.position() <= self.source().len(),
            c == if self.position() + offset < self.source().len() {
                Some(self.source()[self.position() + offset])
            } else {
                None::<char>
            },
    {
        proof {
            use_type_invariant(self);
        }
        if offset < self.source.len() - self.location.offset {
            Some(self.source[self.location.offset + offset])
        } else {
            None
        }
    }

    /// Steps over one character.
    fn advance(&mut self)
        requires
            old(self).position() < old(self).source().len(),
        ensures
            final(self).source() == old(self).source(),
            final(self).position() == old(self).position() + 1,
    {
        proof {
            use_type_invariant(&*self);
            lemma_location_within_offset(self.source@, self.location.offset as int);
            lemma_location_within_offset(self.source@, self.location.offset + 1);
            assert(self.location.offset < self.source.len() <= usize::MAX);
        }
        let c = self.source[self.location.offset];
        let next = if c == '\n' {
            Location { line: self.location.line + 1, column: 0, offset: self.location.offset + 1 }
        } else {
            Location {
                line: self.location.line,
                column: self.location.column + 1,
                offset: self.location.offset + 1,
            }
        };
        self.location = next;
    }

    /// Steps over the longest run of characters of `class`.
    fn skip(&mut self, class: Class)
        ensures
            final(self).source() == old(self).source(),
            old(self).position() <= final(self).position() <= final(self).source().len(),
            final(self).position() == run_end(old(self).source(), old(self).position(), class),
    {
        proof {
            use_type_invariant(&*self);
        }
        loop
            invariant
                self.source() == old(self).source(),
                old(self).position() <= self.position() <= self.source().len(),
                run_end(self.source(), self.position(), class) == run_end(
                    old(self).source(),
                    old(self).position(),
                    class,
                ),
            ensures
                self.position() == run_end(old(self).source(), old(self).position(), class),
            decreases self.source().len() - self.position(),
        {
            match self.peek(0) {
                Some(c) => {
                    if class.test(c) {
                        self.advance();
                    } else {
                        break ;
                    }
                },
                None => {
                    break ;
                },
            }
        }
    }

    /// Steps over blank space and comments, up to the next lexeme.
    fn skip_comment(&mut self)
        ensures
            final(self).source() == old(self).source(),
            final(self).position() == token_start(old(self).source(), old(self).position()),
            old(self).position() <= final(self).position() <= final(self).source().len(),
    {
        proof {
            use_type_invariant(&*self);
        }
        loop
            invariant_except_break
                token_start(self.source(), self.position()) == token_start(
                    old(self).source(),
                    old(self).position(),
                ),
            invariant
                self.source() == old(self).source(),
                old(self).position() <= self.position() <= self.source().len(),
            ensures
                self.position() == token_start(old(self).source(), old(self).position()),
            decreases self.source().len() - self.position(),
        {
            self.skip(Class::Blank);
            if self.peek(0) == Some(';') {
                self.advance();
                self.skip(Class::Comment);
            } else {
                break ;
            }
        }
    }

    /// The text between `start` and where the scanner stands.
    fn text_from(&self, start: usize) -> (text: String)
        requires
            start <= self.position(),
        ensures
            self.position() <= self.source().len(),
            text@ == self.source().subrange(start as int, self.position()),
    {
        proof {
            use_type_invariant(self);
        }
        let mut text = String::new();
        let mut i = start;
        while i < self.location.offset
            invariant
                start <= i <= self.location.offset <= self.source@.len(),
                text@ == self.source@.subrange(start as int, i as int),
            decreases self.location.offset - i,
        {
            text.push(self.source[i]);
            i += 1;
        }
        text
    }

    /// Steps over the lexeme that begins where the scanner stands and says
    /// what it is.
    fn scan_lexeme(&mut self) -> (kind: Result<Kind, ErrorKind>)
        requires
            old(self).position() < old(self).source().len(),
        ensures
            final(self).source() == old(self).source(),
            final(self).position() == lexeme_end(old(self).source(), old(self).position()),
            kind == lexeme_kind(old(self).source(), old(self).position()),
    {
        let c = self.peek(0).unwrap();
        let follower = self.peek(1);
        self.advance();
        match Kind::mark(c) {
            Some(kind) => Ok(kind),
            None => {
                if c == '<' {
                    self.scan_less_than(follower)
                } else if c == '>' {
                    self.scan_greater_than(follower)
                } else if c == '.' || ascii_digit(c) {
                    self.scan_number(c, follower)
                } else if xid_start(c) {
                    self.scan_identifier()
                } else {
                    self.scan_invalid()
                }
            },
        }
    }

    fn scan_less_than(&mut self, follower: Option<char>) -> (kind: Result<Kind, ErrorKind>)
        requires
            follower == if old(self).position() < old(self).source().len() {
                Some(old(self).source()[old(self).position()])
            } else {
                None::<char>
            },
        ensures
            final(self).source() == old(self).source(),
            final(self).position() == old(self).position() + if follower == Some('=') || follower
                == Some('>') {
                1int
            } else {
                0int
            },
            kind == Ok::<Kind, ErrorKind>(
                if follower == Some('=') {
                    Kind::LessThanOrEqualTo
                } else if follower == Some('>') {
                    Kind::NotEqual
                } else {
                    Kind::LessThan
                },
            ),
    {
        if follower == Some('=') {
            self.advance();
            Ok(Kind::LessThanOrEqualTo)
        } else if follower == Some('>') {
            self.advance();
            Ok(Kind::NotEqual)
        } else {
            Ok(Kind::LessThan)
        }
    }

    fn scan_greater_than(&mut self, follower: Option<char>) -> (kind: Result<Kind, ErrorKind>)
        requires
            follower == if old(self).position() < old(self).source().len() {
                Some(old(self).source()[old(self).position()])
            } else {
                None::<char>
            },
        ensures
            final(self).source() == old(self).source(),
            final(self).position() == old(self).position() + if follower == Some('=') {
                1int
            } else {
                0int
            },
            kind == Ok::<Kind, ErrorKind>(
                if follower == Some('=') {
                    Kind::GreaterThanOrEqualTo
                } else {
                    Kind::GreaterThan
                },
            ),
    {
        if follower == Some('=') {
            self.advance();
            Ok(Kind::GreaterThanOrEqualTo)
        } else {
            Ok(Kind::GreaterThan)
        }
    }

    /// Reads the rest of a numeral whose first character, `first`, the scanner
    /// has just left behind.
    fn scan_number(&mut self, first: char, follower: Option<char>) -> (kind: Result<
        Kind,
        ErrorKind,
    >)
        requires
            0 < old(self).position() <= old(self).source().len(),
            first == old(self).source()[old(self).position() - 1],
            first == '.' || is_ascii_digit(first),
            follower == if old(self).position() < old(self).source().len() {
                Some(old(self).source()[old(self).position()])
            } else {
                None::<char>
            },
        ensures
            final(self).source() == old(self).source(),
            final(self).position() == number_end(old(self).source(), old(self).position() - 1),
            kind == if number_is_valid(old(self).source(), old(self).position() - 1) {
                Ok::<Kind, ErrorKind>(Kind::Number)
            } else {
                Err::<Kind, ErrorKind>(ErrorKind::Number)
            },
    {
        let followed_by_digit = match follower {
            Some(c) => ascii_digit(c),
            None => false,
        };
        self.skip(Class::Digit);
        if first == '.' {
            if followed_by_digit {
                Ok(Kind::Number)
            } else {
                Err(ErrorKind::Number)
            }
        } else {
            if self.peek(0) == Some('.') {
                match self.peek(1) {
                    Some(c) => {
                        if ascii_digit(c) {
                            self.advance();
                            self.skip(Class::Digit);
                        }
                    },
                    None => {},
                }
            }
            if first == '0' && followed_by_digit {
                Err(ErrorKind::Number)
            } else {
                Ok(Kind::Number)
            }
        }
    }

    fn scan_identifier(&mut self) -> (kind: Result<Kind, ErrorKind>)
        ensures
            final(self).source() == old(self).source(),
            final(self).position() == run_end(
                old(self).source(),
                old(self).position(),
                Class::Continue,
            ),
            kind == Ok::<Kind, ErrorKind>(Kind::Identifier),
    {
        self.skip(Class::Continue);
        Ok(Kind::Identifier)
    }

    /// Gathers the stray characters that follow into the error that the
    /// scanner has begun.
    fn scan_invalid(&mut self) -> (kind: Result<Kind, ErrorKind>)
        ensures
            final(self).source() == old(self).source(),
            final(self).position() == run_end(old(self).source(), old(self).position(), Class::Stray),
            kind == Err::<Kind, ErrorKind>(ErrorKind::Invalid),
    {
        self.skip(Class::Stray);
        Err(ErrorKind::Invalid)
    }

    /// The next item of the source: a token, or an error in the place of one;
    /// `None` once nothing but blank space and comments is left. The scanner
    /// then stands behind the item.
    pub fn next(&mut self) -> (item: Option<Result<Token, LexicalError>>)
        ensures
            final(self).source() == old(self).source(),
            0 <= old(self).position() <= final(self).position() <= final(self).source().len(),
            ({
                let text = old(self).source();
                let start = token_start(text, old(self).position());
                if start < text.len() {
                    &&& item is Some
                    &&& item_view(item->0) == scanned_at(text, start)
                    &&& final(self).position() == lexeme_end(text, start)
                    &&& start < final(self).position()
                } else {
                    &&& item is None
                    &&& final(self).position() == text.len()
                }
            }),
    {
        self.skip_comment();
        let start = self.location;
        proof {
            use_type_invariant(&*self);
            lemma_token_start(old(self).source(), old(self).position());
        }
        if self.peek(0).is_none() {
            return None;
        }
        proof {
            lemma_lexeme_end(self.source(), self.position());
        }
        let kind = self.scan_lexeme();
        let lexeme = Lexeme::from_string(start, self.text_from(start.offset));
        match kind {
            Ok(kind) => Some(Ok(Token::new(lexeme, kind))),
            Err(kind) => Some(Err(LexicalError::new(lexeme, kind))),
        }
    }

    /// Every item of `source`, in order.
    pub fn scan(source: &str) -> (items: Vec<Result<Token, LexicalError>>)
        ensures
            items_view(items@) == scan_of(source@),
    {
        let mut scanner = Scanner::new(source);
        let mut items: Vec<Result<Token, LexicalError>> = Vec::new();
        loop
            invariant
                scanner.source() == source@,
                0 <= scanner.position() <= source@.len(),
                scan_of(source@) == items_view(items@) + scan_from(source@, scanner.position()),
            ensures
                items_view(items@) == scan_of(source@),
            decreases source@.len() - scanner.position(),
        {
            let ghost before = scanner.position();
            let ghost seen = items@;
            match scanner.next() {
                Some(item) => {
                    items.push(item);
                    proof {
                        let start = token_start(source@, before);
                        lemma_token_start(source@, before);
                        assert(items_view(items@) == items_view(seen) + seq![
                            scanned_at(source@, start),
                        ]);
                        assert(scan_from(source@, before) == seq![scanned_at(source@, start)]
                            + scan_from(source@, scanner.position()));
                        assert(scan_of(source@) == items_view(items@) + scan_from(
                            source@,
                            scanner.position(),
                        ));
                    }
                },
                None => {
                    proof {
                        lemma_token_start(source@, before);
                        assert(scan_from(source@, before) == Seq::<Scanned>::empty());
                    }
                    break ;
                },
            }
        }
        items
    }
}

} // verus!
