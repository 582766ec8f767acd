//! The single-character lookahead primitive.

use vstd::prelude::*;

use crate::cursor::Cursor;

verus! {

/// A one-character predicate with an executable test that agrees with its
/// specification. Every acceptance rule of the toolkit is such a value.
pub trait CharPred {
    /// Whether the predicate holds of `c`.
    spec fn spec_accepts(&self, c: char) -> bool;

    /// The executable test for [`CharPred::spec_accepts`].
    fn accepts(&self, c: char) -> (b: bool)
        ensures
            b == self.spec_accepts(c),
    ;
}

/// The predicate that accepts exactly one character.
pub struct CharIs {
    /// The one character accepted.
    pub wanted: char,
}

impl CharPred for CharIs {
    open spec fn spec_accepts(&self, c: char) -> bool {
        c == self.wanted
    }

    fn accepts(&self, c: char) -> (b: bool) {
        c == self.wanted
    }
}

/// Conditionally consumes exactly one character.
///
/// Peeks the next character: if the input is exhausted or the predicate
/// rejects it, nothing is consumed and nothing is returned; if the predicate
/// accepts it, exactly that character is consumed and returned. This is the
/// sole point of cursor mutation in the toolkit; everything else composes it.
pub fn accept_if<P: CharPred>(predicate: &P, cursor: &mut Cursor) -> (r: Option<char>)
    ensures
        match r {
            Some(c) => old(cursor)@.len() > 0 && c == old(cursor)@[0]
                && predicate.spec_accepts(c) && final(cursor)@ == old(cursor)@.skip(1),
            None => final(cursor)@ == old(cursor)@
                && (old(cursor)@.len() == 0 || !predicate.spec_accepts(old(cursor)@[0])),
        },
{
    match cursor.peek() {
        Some(c) => {
            if predicate.accepts(c) {
                cursor.advance();
                Some(c)
            } else {
                None
            }
        },
        None => None,
    }
}

} // verus!
