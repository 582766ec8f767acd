//! Single fixed-character syntax helpers, in optional and mandatory forms.

use vstd::prelude::*;
use vstd::seq_lib::lemma_seq_skip_of_skip;

use crate::cursor::Cursor;
use crate::lookahead::{accept_if, CharIs};
use crate::outcome::{Diag, Progress};
use crate::whitespace::{lemma_ws_count_bounds, skip_ambient, ws_count};

verus! {

/// The next character of `s` is exactly `syntax`.
pub open spec fn syntax_present(syntax: char, s: Seq<char>) -> bool {
    s.len() > 0 && s[0] == syntax
}

/// What is left of `s` after one accepted character and the ambient
/// whitespace following it.
pub open spec fn after_syntax(s: Seq<char>) -> Seq<char> {
    s.skip(1 + ws_count(s.skip(1)))
}

/// Accepts one specific character if it is next, then skips ambient
/// whitespace; absence is a normal negative result with nothing consumed.
pub fn maybe_syntax(syntax: char, cursor: &mut Cursor) -> (r: Option<()>)
    ensures
        r is Some <==> syntax_present(syntax, old(cursor)@),
        r is Some ==> final(cursor)@ == after_syntax(old(cursor)@),
        r is None ==> final(cursor)@ == old(cursor)@,
{
    let pred = CharIs { wanted: syntax };
    match accept_if(&pred, cursor) {
        None => None,
        Some(_) => {
            skip_ambient(cursor);
            proof {
                lemma_ws_count_bounds(old(cursor)@.skip(1));
                lemma_seq_skip_of_skip(old(cursor)@, 1, ws_count(old(cursor)@.skip(1)));
            }
            Some(())
        },
    }
}

/// The diagnosis [`require_syntax`] reports when `syntax` is not next in `s`.
pub open spec fn expected_diag(syntax: char, s: Seq<char>) -> Diag {
    Diag::Expected(
        syntax,
        if s.len() > 0 {
            Some(s[0])
        } else {
            None
        },
    )
}

/// Accepts one specific mandatory character, then skips ambient whitespace;
/// absence is malformed input, reported with the expected character and the
/// character actually found (or the end-of-input marker).
pub fn require_syntax(syntax: char, cursor: &mut Cursor) -> (r: Progress<()>)
    ensures
        syntax_present(syntax, old(cursor)@) ==> r == Progress::<()>::Parsed(()) && final(cursor)@
            == after_syntax(old(cursor)@),
        !syntax_present(syntax, old(cursor)@) ==> r == Progress::<()>::Fatal(
            expected_diag(syntax, old(cursor)@),
        ) && final(cursor)@ == old(cursor)@,
{
    match maybe_syntax(syntax, cursor) {
        Some(_) => Progress::Parsed(()),
        None => {
            let found = cursor.peek();
            Progress::Fatal(Diag::Expected(syntax, found))
        },
    }
}

} // verus!
