//! Whitespace handling: the whitespace alphabet, the ambient skipper, and
//! the mandatory whitespace element.

use vstd::prelude::*;
use vstd::seq_lib::lemma_seq_skip_of_skip;

use crate::cursor::Cursor;
use crate::lookahead::{accept_if, CharPred};
use crate::outcome::{lemma_skip_is_suffix, Progress, SpecProgress};
use crate::parse::Parse;

verus! {

/// The toolkit's whitespace alphabet: the Unicode white-space characters —
/// the ASCII ones (space, horizontal tab, line feed, vertical tab, form
/// feed, carriage return), next line, no-break space, ogham space mark, the
/// en-quad through hair-space range, line separator, paragraph separator,
/// narrow no-break space, medium mathematical space and ideographic space.
pub open spec fn is_space(c: char) -> bool {
    c == ' ' || c == '\t' || c == '\n' || c == '\u{b}' || c == '\u{c}' || c == '\r'
        || c == '\u{85}' || c == '\u{a0}' || c == '\u{1680}' || ('\u{2000}' <= c && c
        <= '\u{200a}') || c == '\u{2028}' || c == '\u{2029}' || c == '\u{202f}' || c
        == '\u{205f}' || c == '\u{3000}'
}

/// The predicate value for [`is_space`].
pub struct SpaceChar;

impl CharPred for SpaceChar {
    open spec fn spec_accepts(&self, c: char) -> bool {
        is_space(c)
    }

    fn accepts(&self, c: char) -> (b: bool) {
        c == ' ' || c == '\t' || c == '\n' || c == '\u{b}' || c == '\u{c}' || c == '\r'
        || c == '\u{85}' || c == '\u{a0}' || c == '\u{1680}' || ('\u{2000}' <= c && c
        <= '\u{200a}') || c == '\u{2028}' || c == '\u{2029}' || c == '\u{202f}' || c
        == '\u{205f}' || c == '\u{3000}'
    }
}

/// How many leading characters of `s` are whitespace.
pub open spec fn ws_count(s: Seq<char>) -> int
    decreases s.len(),
{
    if s.len() > 0 && is_space(s[0]) {
        1 + ws_count(s.skip(1))
    } else {
        0
    }
}

/// The leading whitespace of `s` is at most all of `s`.
pub proof fn lemma_ws_count_bounds(s: Seq<char>)
    ensures
        0 <= ws_count(s) <= s.len(),
    decreases s.len(),
{
    if s.len() > 0 && is_space(s[0]) {
        lemma_ws_count_bounds(s.skip(1));
    }
}

/// Ambient whitespace skipping is idempotent: after the leading whitespace of
/// `s` is consumed, no leading whitespace is left, so skipping a second time
/// consumes nothing.
pub proof fn lemma_ambient_idempotent(s: Seq<char>)
    ensures
        ws_count(s.skip(ws_count(s))) == 0,
    decreases s.len(),
{
    if s.len() > 0 && is_space(s[0]) {
        lemma_ws_count_bounds(s.skip(1));
        lemma_ambient_idempotent(s.skip(1));
        lemma_seq_skip_of_skip(s, 1, ws_count(s.skip(1)));
        assert(s.skip(ws_count(s)) == s.skip(1).skip(ws_count(s.skip(1))));
    } else {
        assert(s.skip(0) =~= s);
    }
}

fn space_next(cursor: &Cursor) -> (b: bool)
    ensures
        b == (cursor@.len() > 0 && is_space(cursor@[0])),
{
    match cursor.peek() {
        Some(c) => SpaceChar.accepts(c),
        None => false,
    }
}

/// Greedily consumes zero or more whitespace characters; never fails.
///
/// This is the post-token and post-syntax cleanup step: every operation that
/// accepts a unit also accepts the whitespace following it.
#[verifier::loop_isolation(false)]
pub fn skip_ambient(cursor: &mut Cursor)
    ensures
        final(cursor)@ == old(cursor)@.skip(ws_count(old(cursor)@)),
{
    proof {
        lemma_ws_count_bounds(cursor@);
    }
    let ghost orig: Seq<char> = cursor@;
    while space_next(cursor)
        invariant
            orig.skip(ws_count(orig)) == cursor@.skip(ws_count(cursor@)),
            0 <= ws_count(cursor@) <= cursor@.len(),
        decreases cursor@.len(),
    {
        let ghost before: Seq<char> = cursor@;
        cursor.advance();
        proof {
            lemma_ws_count_bounds(cursor@);
            lemma_seq_skip_of_skip(before, 1, ws_count(before.skip(1)));
            assert(before.skip(ws_count(before)) == cursor@.skip(ws_count(cursor@)));
        }
    }
    proof {
        assert(cursor@.skip(0) =~= cursor@);
    }
}

/// The mandatory whitespace element: at least one whitespace character,
/// then greedily the rest.
pub struct Whitespace;

impl Parse for Whitespace {
    type Model = ();

    open spec fn model(v: &Whitespace) -> () {
        ()
    }

    open spec fn spec_parse(s: Seq<char>) -> SpecProgress<()> {
        if s.len() > 0 && is_space(s[0]) {
            SpecProgress::Parsed((), s.skip(ws_count(s)))
        } else {
            SpecProgress::Absent
        }
    }

    proof fn lemma_parse_consumes(s: Seq<char>) {
        if s.len() > 0 && is_space(s[0]) {
            lemma_ws_count_bounds(s);
            lemma_skip_is_suffix(s, ws_count(s));
        }
    }

    fn parse(cursor: &mut Cursor) -> (r: Progress<Whitespace>) {
        match accept_if(&SpaceChar, cursor) {
            None => Progress::Absent,
            Some(_) => {
                skip_ambient(cursor);
                proof {
                    lemma_ws_count_bounds(old(cursor)@.skip(1));
                    lemma_seq_skip_of_skip(old(cursor)@, 1, ws_count(old(cursor)@.skip(1)));
                }
                Progress::Parsed(Whitespace)
            },
        }
    }
}

} // verus!
