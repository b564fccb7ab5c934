//! Blank space and comments frame tokens and are no part of them: a text
//! scans to the same kinds and texts whatever blank space and comments stand
//! before it. Only the locations of its items move.

use vstd::prelude::*;
use crate::errors::lexical::ErrorKind;
use crate::scanner::{
    lemma_lexeme_end,
    lemma_run_end,
    lemma_token_start,
    lexeme_end,
    lexeme_kind,
    number_end,
    run_end,
    scan_from,
    scan_of,
    scanned_at,
    token_start,
    Class,
    Scanned,
};
use crate::token::Kind;

verus! {

/// The kind and the text of an item: what is left of it when its location is
/// set aside.
pub open spec fn content(item: Scanned) -> (Result<Kind, ErrorKind>, Seq<char>) {
    match item {
        Ok(token) => (Ok(token.kind), token.lexeme.text),
        Err(error) => (Err(error.kind), error.lexeme.text),
    }
}

/// The kinds and the texts of the items of a scan, in order.
pub open spec fn contents(items: Seq<Scanned>) -> Seq<(Result<Kind, ErrorKind>, Seq<char>)> {
    Seq::new(items.len(), |i: int| content(items[i]))
}

/// A run ends at the same character wherever the text that it stands in
/// begins.
pub proof fn lemma_run_end_shifts(prefix: Seq<char>, text: Seq<char>, at: int, class: Class)
    requires
        0 <= at <= text.len(),
    ensures
        run_end(prefix + text, prefix.len() + at, class) == prefix.len() + run_end(
            text,
            at,
            class,
        ),
    decreases text.len() - at,
{
    let whole = prefix + text;
    if at < text.len() {
        assert(whole[prefix.len() + at] == text[at]);
        if class.holds(text[at]) {
            lemma_run_end_shifts(prefix, text, at + 1, class);
        }
    }
}

/// The next lexeme begins at the same character wherever the text that it
/// stands in begins.
pub proof fn lemma_token_start_shifts(prefix: Seq<char>, text: Seq<char>, at: int)
    requires
        0 <= at <= text.len(),
    ensures
        token_start(prefix + text, prefix.len() + at) == prefix.len() + token_start(text, at),
    decreases text.len() - at,
{
    let whole = prefix + text;
    let blank_end = run_end(text, at, Class::Blank);
    lemma_run_end_shifts(prefix, text, at, Class::Blank);
    lemma_run_end(text, at, Class::Blank);
    if blank_end < text.len() {
        assert(whole[prefix.len() + blank_end] == text[blank_end]);
        if text[blank_end] == ';' {
            lemma_run_end_shifts(prefix, text, blank_end + 1, Class::Comment);
            lemma_run_end(text, blank_end + 1, Class::Comment);
            lemma_token_start_shifts(prefix, text, run_end(text, blank_end + 1, Class::Comment));
        }
    }
}

/// A lexeme has the same kind, the same length and the same text wherever
/// the text that it stands in begins.
pub proof fn lemma_lexeme_shifts(prefix: Seq<char>, text: Seq<char>, start: int)
    requires
        0 <= start < text.len(),
    ensures
        lexeme_kind(prefix + text, prefix.len() + start) == lexeme_kind(text, start),
        lexeme_end(prefix + text, prefix.len() + start) == prefix.len() + lexeme_end(text, start),
        content(scanned_at(prefix + text, prefix.len() + start)) == content(
            scanned_at(text, start),
        ),
{
    let whole = prefix + text;
    let n = prefix.len() as int;
    assert(whole[n + start] == text[start]);
    if start + 1 < text.len() {
        assert(whole[n + start + 1] == text[start + 1]);
    }
    lemma_run_end_shifts(prefix, text, start, Class::Digit);
    lemma_run_end_shifts(prefix, text, start + 1, Class::Digit);
    lemma_run_end_shifts(prefix, text, start + 1, Class::Continue);
    lemma_run_end_shifts(prefix, text, start + 1, Class::Stray);
    let whole_end = run_end(text, start, Class::Digit);
    lemma_run_end(text, start, Class::Digit);
    if whole_end + 1 < text.len() {
        assert(whole[n + whole_end] == text[whole_end]);
        assert(whole[n + whole_end + 1] == text[whole_end + 1]);
        lemma_run_end_shifts(prefix, text, whole_end + 1, Class::Digit);
    }
    assert(number_end(whole, n + start) == n + number_end(text, start));
    lemma_lexeme_end(text, start);
    let end = lexeme_end(text, start);
    assert(whole.subrange(n + start, n + end) =~= text.subrange(start, end));
}

/// A text scans to the same kinds and texts wherever it begins.
pub proof fn lemma_scan_shifts(prefix: Seq<char>, text: Seq<char>, at: int)
    requires
        0 <= at <= text.len(),
    ensures
        contents(scan_from(prefix + text, prefix.len() + at)) == contents(scan_from(text, at)),
    decreases text.len() - at,
{
    let whole = prefix + text;
    let n = prefix.len() as int;
    lemma_token_start_shifts(prefix, text, at);
    lemma_token_start(text, at);
    let start = token_start(text, at);
    if start < text.len() {
        lemma_lexeme_shifts(prefix, text, start);
        lemma_lexeme_end(text, start);
        lemma_scan_shifts(prefix, text, lexeme_end(text, start));
        let rest = scan_from(text, lexeme_end(text, start));
        let shifted = scan_from(whole, n + lexeme_end(text, start));
        assert(scan_from(text, at) == seq![scanned_at(text, start)] + rest);
        assert(scan_from(whole, n + at) == seq![scanned_at(whole, n + start)] + shifted);
        assert(contents(seq![scanned_at(text, start)] + rest) =~= seq![
            content(scanned_at(text, start)),
        ] + contents(rest));
        assert(contents(seq![scanned_at(whole, n + start)] + shifted) =~= seq![
            content(scanned_at(whole, n + start)),
        ] + contents(shifted));
    } else {
        assert(scan_from(text, at) =~= Seq::<Scanned>::empty());
        assert(scan_from(whole, n + at) =~= Seq::<Scanned>::empty());
        assert(contents(scan_from(text, at)) =~= contents(scan_from(whole, n + at)));
    }
}

/// Scanning from two places before the same lexeme gives the same items.
proof fn lemma_scan_from_the_same_start(text: Seq<char>, from: int, other: int)
    requires
        0 <= from <= text.len(),
        0 <= other <= text.len(),
        token_start(text, from) == token_start(text, other),
    ensures
        scan_from(text, from) == scan_from(text, other),
{
    lemma_token_start(text, from);
    lemma_token_start(text, other);
}

/// Blank space before the next lexeme is no part of it.
proof fn lemma_token_start_skips_blank(text: Seq<char>, at: int)
    requires
        0 <= at < text.len(),
        Class::Blank.holds(text[at]),
    ensures
        token_start(text, at) == token_start(text, at + 1),
{
    lemma_run_end(text, at + 1, Class::Blank);
}

/// A comment runs to the end of its line.
proof fn lemma_comment_runs_to_line_end(text: Seq<char>, at: int, end: int)
    requires
        0 <= at <= end < text.len(),
        forall|i: int| at <= i < end ==> #[trigger] text[i] != '\n',
        text[end] == '\n',
    ensures
        run_end(text, at, Class::Comment) == end,
    decreases end - at,
{
    if at < end {
        assert(text[at] != '\n');
        lemma_comment_runs_to_line_end(text, at + 1, end);
    }
}

/// A blank character before a text changes none of the kinds and texts that
/// the text scans to.
pub proof fn lemma_scan_ignores_leading_blank(blank: char, text: Seq<char>)
    requires
        Class::Blank.holds(blank),
    ensures
        contents(scan_of(seq![blank] + text)) == contents(scan_of(text)),
{
    let prefix = seq![blank];
    let whole = prefix + text;
    assert(whole[0] == blank);
    lemma_token_start_skips_blank(whole, 0);
    lemma_scan_from_the_same_start(whole, 0, 1);
    lemma_scan_shifts(prefix, text, 0);
}

/// A comment on a line of its own before a text changes none of the kinds
/// and texts that the text scans to.
pub proof fn lemma_scan_ignores_leading_comment(comment: Seq<char>, text: Seq<char>)
    requires
        forall|i: int| 0 <= i < comment.len() ==> #[trigger] comment[i] != '\n',
    ensures
        contents(scan_of(seq![';'] + comment + seq!['\n'] + text)) == contents(scan_of(text)),
{
    let prefix = seq![';'] + comment + seq!['\n'];
    let whole = prefix + text;
    let n = prefix.len() as int;
    assert(n == comment.len() + 2);
    assert(whole[0] == ';');
    assert(whole[n - 1] == '\n');
    assert forall|i: int| 1 <= i < n - 1 implies #[trigger] whole[i] != '\n' by {
        assert(whole[i] == comment[i - 1]);
    }
    lemma_comment_runs_to_line_end(whole, 1, n - 1);
    assert(run_end(whole, 0, Class::Blank) == 0);
    assert(token_start(whole, 0) == token_start(whole, n - 1));
    lemma_token_start_skips_blank(whole, n - 1);
    lemma_scan_from_the_same_start(whole, 0, n);
    lemma_scan_shifts(prefix, text, 0);
}

} // verus!
