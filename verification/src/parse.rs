//! The uniform parse contract, and its optional and mandatory call forms.

use vstd::prelude::*;

use crate::cursor::Cursor;
use crate::outcome::{is_suffix_of, Diag, Progress, SpecProgress};

verus! {

/// The contract every parseable type implements: attempt to consume a prefix
/// of the cursor and produce a value, or fail without consuming anything.
///
/// What parsing means for the type is pinned down once, at the specification
/// level, by [`Parse::spec_parse`]; the executable [`Parse::parse`] must agree
/// with it exactly, on success, on absence and on every fatal diagnosis.
pub trait Parse: Sized {
    /// The mathematical model of a parsed value of this type.
    type Model;

    /// The model of the value `v`.
    spec fn model(v: &Self) -> Self::Model;

    /// What parsing does to the input `s`: the parsed value's model and the
    /// remaining input, or absence, or a fatal diagnosis.
    spec fn spec_parse(s: Seq<char>) -> SpecProgress<Self::Model>;

    /// A successful parse only consumes a prefix: what it leaves is a suffix
    /// of the input it was given.
    proof fn lemma_parse_consumes(s: Seq<char>)
        ensures
            Self::spec_parse(s) matches SpecProgress::Parsed(_, rest) ==> is_suffix_of(rest, s),
    ;

    /// Attempts to parse one value of this type from the front of `cursor`.
    ///
    /// On an absent result the cursor is left exactly where it was.
    fn parse(cursor: &mut Cursor) -> (r: Progress<Self>)
        ensures
            match r {
                Progress::Parsed(v) => Self::spec_parse(old(cursor)@) matches SpecProgress::Parsed(
                    m,
                    rest,
                ) && m == Self::model(&v) && rest == final(cursor)@,
                Progress::Absent => Self::spec_parse(old(cursor)@) is Absent && final(cursor)@
                    == old(cursor)@,
                Progress::Fatal(d) => Self::spec_parse(old(cursor)@) matches SpecProgress::Fatal(
                    sd,
                ) && sd == d,
            },
    ;
}

/// The relation every [`Parse::parse`] establishes between the input `pre`,
/// the remaining input `post` and the returned outcome `r`.
pub open spec fn parse_post<T: Parse>(pre: Seq<char>, post: Seq<char>, r: Progress<T>) -> bool {
    match r {
        Progress::Parsed(v) => T::spec_parse(pre) matches SpecProgress::Parsed(m, rest)
            && m == T::model(&v) && rest == post,
        Progress::Absent => T::spec_parse(pre) is Absent && post == pre,
        Progress::Fatal(d) => T::spec_parse(pre) matches SpecProgress::Fatal(sd) && sd == d,
    }
}

/// Attempts an optional element: the parsed value, or an absent result with
/// nothing consumed. Never turns absence into a fatal condition.
pub fn maybe<T: Parse>(cursor: &mut Cursor) -> (r: Progress<T>)
    ensures
        parse_post::<T>(old(cursor)@, final(cursor)@, r),
{
    T::parse(cursor)
}

/// What [`require`] does to the input `s`: as [`Parse::spec_parse`], except
/// that absence is the fatal [`Diag::MissingElement`].
pub open spec fn spec_require<T: Parse>(s: Seq<char>) -> SpecProgress<T::Model> {
    match T::spec_parse(s) {
        SpecProgress::Absent => SpecProgress::Fatal(Diag::MissingElement),
        pr => pr,
    }
}

/// Demands a mandatory element: the same parse as [`maybe`], but an absent
/// element is malformed input, reported as [`Diag::MissingElement`].
pub fn require<T: Parse>(cursor: &mut Cursor) -> (r: Progress<T>)
    ensures
        !(r is Absent),
        match r {
            Progress::Parsed(v) => spec_require::<T>(old(cursor)@) matches SpecProgress::Parsed(
                m,
                rest,
            ) && m == T::model(&v) && rest == final(cursor)@,
            Progress::Absent => false,
            Progress::Fatal(d) => spec_require::<T>(old(cursor)@) matches SpecProgress::Fatal(sd)
                && sd == d && (T::spec_parse(old(cursor)@) is Absent ==> final(cursor)@ == old(
                cursor,
            )@),
        },
{
    match maybe::<T>(cursor) {
        Progress::Parsed(v) => Progress::Parsed(v),
        Progress::Absent => Progress::Fatal(Diag::MissingElement),
        Progress::Fatal(d) => Progress::Fatal(d),
    }
}

/// Succeeds exactly when the input is exhausted; consumes nothing.
pub fn end_of_parse(cursor: &Cursor) -> (r: Option<()>)
    ensures
        r is Some <==> cursor@.len() == 0,
{
    match cursor.peek() {
        Some(_) => None,
        None => Some(()),
    }
}

} // verus!
