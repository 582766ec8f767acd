//! Two-way alternation, dispatched on a single character of lookahead.
//!
//! The dispatch is exactly one character wide: grammars that need three or
//! more mutually exclusive alternatives, or deeper lookahead, must build
//! their own dispatch rather than nest this one.

use vstd::prelude::*;

use crate::cursor::Cursor;
use crate::outcome::{Progress, SpecProgress};
use crate::parse::Parse;
use crate::token::{spec_tokenize, Token};

verus! {

/// The sum of a token class and any fallback: `Ok` when the next character
/// obeys the token class's first-character rule, `Err` when the fallback
/// was attempted instead.
impl<T1: Token, T2: Parse> Parse for Result<T1, T2> {
    type Model = Result<<T1 as Token>::Model, <T2 as Parse>::Model>;

    open spec fn model(v: &Result<T1, T2>) -> Self::Model {
        match v {
            Ok(t) => Ok(T1::token_model(t)),
            Err(u) => Err(<T2 as Parse>::model(u)),
        }
    }

    open spec fn spec_parse(s: Seq<char>) -> SpecProgress<Self::Model> {
        if s.len() == 0 {
            SpecProgress::Absent
        } else if T1::spec_accept_1st(s[0]) {
            match spec_tokenize::<T1>(s) {
                SpecProgress::Parsed(m, rest) => SpecProgress::Parsed(Ok(m), rest),
                SpecProgress::Absent => SpecProgress::Absent,
                SpecProgress::Fatal(d) => SpecProgress::Fatal(d),
            }
        } else {
            match <T2 as Parse>::spec_parse(s) {
                SpecProgress::Parsed(m, rest) => SpecProgress::Parsed(Err(m), rest),
                SpecProgress::Absent => SpecProgress::Absent,
                SpecProgress::Fatal(d) => SpecProgress::Fatal(d),
            }
        }
    }

    proof fn lemma_parse_consumes(s: Seq<char>) {
        if s.len() > 0 {
            if T1::spec_accept_1st(s[0]) {
                <T1 as Parse>::lemma_parse_consumes(s);
            } else {
                <T2 as Parse>::lemma_parse_consumes(s);
            }
        }
    }

    fn parse(cursor: &mut Cursor) -> (r: Progress<Result<T1, T2>>) {
        let c = match cursor.peek() {
            None => return Progress::Absent,
            Some(c) => c,
        };
        if T1::accept_1st(c) {
            match T1::parse(cursor) {
                Progress::Parsed(v) => Progress::Parsed(Ok(v)),
                Progress::Absent => Progress::Absent,
                Progress::Fatal(d) => Progress::Fatal(d),
            }
        } else {
            match T2::parse(cursor) {
                Progress::Parsed(v) => Progress::Parsed(Err(v)),
                Progress::Absent => Progress::Absent,
                Progress::Fatal(d) => Progress::Fatal(d),
            }
        }
    }
}

} // verus!
