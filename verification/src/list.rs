//! Separator-delimited list parsing: a non-empty sequence of elements with
//! a configurable separator and an element-count safety bound.

use vstd::prelude::*;

use crate::cursor::Cursor;
use crate::outcome::{
    is_suffix_of, lemma_skip_is_suffix, lemma_suffix_refl, lemma_suffix_trans, Diag, Progress,
    SpecProgress,
};
use crate::parse::{maybe, require, Parse};
use crate::syntax::{after_syntax, maybe_syntax, syntax_present};
use crate::whitespace::{lemma_ws_count_bounds, ws_count};

verus! {

/// List configuration for an element type: the separator character and the
/// maximum element count. The conventional choices are `','` and `127`.
pub trait Many: Sized {
    /// The separator character between elements.
    spec fn spec_sep() -> char;

    /// The executable value of [`Many::spec_sep`].
    fn sep() -> (c: char)
        ensures
            c == Self::spec_sep(),
    ;

    /// The maximum element count: a list reaching this many elements before
    /// a further separator is a resource-exhaustion condition.
    spec fn spec_limit() -> usize;

    /// The executable value of [`Many::spec_limit`].
    fn limit() -> (n: usize)
        ensures
            n == Self::spec_limit(),
    ;
}

/// The models of a sequence of parsed values.
pub open spec fn models_of<T: Parse>(v: Seq<T>) -> Seq<T::Model> {
    v.map_values(|x: T| T::model(&x))
}

/// Taking models commutes with appending one value.
pub proof fn lemma_models_of_push<T: Parse>(v: Seq<T>, x: T)
    ensures
        models_of::<T>(v.push(x)) == models_of::<T>(v).push(T::model(&x)),
{
    assert(models_of::<T>(v.push(x)) =~= models_of::<T>(v).push(T::model(&x)));
}

/// What parsing the tail of a list does to the input `s`, the elements in
/// `acc` already parsed: stop with the accumulated elements when no
/// separator is next; otherwise, past the separator, the next element is
/// mandatory, and the count bound is enforced first.
pub open spec fn spec_list_rest<T: Parse>(
    sep: char,
    max: usize,
    s: Seq<char>,
    acc: Seq<T::Model>,
) -> SpecProgress<Seq<T::Model>>
    decreases s.len(),
{
    if !syntax_present(sep, s) {
        SpecProgress::Parsed(acc, s)
    } else if acc.len() >= max {
        SpecProgress::Fatal(Diag::ListOverflow)
    } else {
        match T::spec_parse(after_syntax(s)) {
            SpecProgress::Parsed(m, rest) => if rest.len() < s.len() {
                spec_list_rest::<T>(sep, max, rest, acc.push(m))
            } else {
                // Unreachable for any implementor of the parse contract: a
                // successful element parse leaves a suffix of its input,
                // which here is strictly shorter than `s`.
                SpecProgress::Fatal(Diag::MissingElement)
            },
            SpecProgress::Absent => SpecProgress::Fatal(Diag::MissingElement),
            SpecProgress::Fatal(d) => SpecProgress::Fatal(d),
        }
    }
}

/// What list parsing does to the input `s`: one mandatory first element —
/// absence means "no list here", with nothing consumed — then the tail.
pub open spec fn spec_parse_list<T: Parse>(sep: char, max: usize, s: Seq<char>) -> SpecProgress<
    Seq<T::Model>,
> {
    match T::spec_parse(s) {
        SpecProgress::Parsed(m, rest) => spec_list_rest::<T>(sep, max, rest, seq![m]),
        SpecProgress::Absent => SpecProgress::Absent,
        SpecProgress::Fatal(d) => SpecProgress::Fatal(d),
    }
}

/// The list tail of [`spec_list_rest`] with the element-count bound
/// ignored: what list parsing would accumulate were no safety margin
/// configured. The margin laws below are stated against it.
pub open spec fn spec_list_rest_unbounded<T: Parse>(
    sep: char,
    s: Seq<char>,
    acc: Seq<T::Model>,
) -> SpecProgress<Seq<T::Model>>
    decreases s.len(),
{
    if !syntax_present(sep, s) {
        SpecProgress::Parsed(acc, s)
    } else {
        match T::spec_parse(after_syntax(s)) {
            SpecProgress::Parsed(m, rest) => if rest.len() < s.len() {
                spec_list_rest_unbounded::<T>(sep, rest, acc.push(m))
            } else {
                // Unreachable for any implementor of the parse contract,
                // as in `spec_list_rest`.
                SpecProgress::Fatal(Diag::MissingElement)
            },
            SpecProgress::Absent => SpecProgress::Fatal(Diag::MissingElement),
            SpecProgress::Fatal(d) => SpecProgress::Fatal(d),
        }
    }
}

/// The list safety margin, relative to the unbounded tail: a tail that
/// stops with at most `max` elements is kept whole; one that never grows
/// past `acc` never consults the bound; and one that grows beyond `max`
/// elements is rejected as [`Diag::ListOverflow`] at the separator, before
/// any further element.
pub proof fn lemma_list_rest_margin<T: Parse>(
    sep: char,
    max: usize,
    s: Seq<char>,
    acc: Seq<T::Model>,
)
    ensures
        spec_list_rest_unbounded::<T>(sep, s, acc) matches SpecProgress::Parsed(ms, _)
            ==> ms.len() >= acc.len(),
        spec_list_rest_unbounded::<T>(sep, s, acc) matches SpecProgress::Parsed(ms, rest) ==> (
        ms.len() <= max ==> spec_list_rest::<T>(sep, max, s, acc) == SpecProgress::<
            Seq<T::Model>,
        >::Parsed(ms, rest)),
        spec_list_rest_unbounded::<T>(sep, s, acc) matches SpecProgress::Parsed(ms, rest) ==> (
        ms.len() == acc.len() ==> spec_list_rest::<T>(sep, max, s, acc) == SpecProgress::<
            Seq<T::Model>,
        >::Parsed(ms, rest)),
        spec_list_rest_unbounded::<T>(sep, s, acc) matches SpecProgress::Parsed(ms, _) ==> (
        ms.len() > max && ms.len() > acc.len() ==> spec_list_rest::<T>(sep, max, s, acc)
            == SpecProgress::<Seq<T::Model>>::Fatal(Diag::ListOverflow)),
    decreases s.len(),
{
    if syntax_present(sep, s) {
        if let SpecProgress::Parsed(m, rest) = T::spec_parse(after_syntax(s)) {
            if rest.len() < s.len() {
                lemma_list_rest_margin::<T>(sep, max, rest, acc.push(m));
            }
        }
    }
}

/// What list parsing does to the input `s` with the element-count bound
/// ignored.
pub open spec fn spec_parse_list_unbounded<T: Parse>(sep: char, s: Seq<char>) -> SpecProgress<
    Seq<T::Model>,
> {
    match T::spec_parse(s) {
        SpecProgress::Parsed(m, rest) => spec_list_rest_unbounded::<T>(sep, rest, seq![m]),
        SpecProgress::Absent => SpecProgress::Absent,
        SpecProgress::Fatal(d) => SpecProgress::Fatal(d),
    }
}

/// The list safety margin at the level of the whole input: when the
/// unbounded parse of the input stops, a list of at most `max` elements is
/// kept whole — the limit is inclusive on success — as is a single element
/// with no separator following it, which never consults the bound; a list
/// that would grow beyond `max` elements is the fatal
/// [`Diag::ListOverflow`], raised at the separator before any further
/// element is parsed.
pub proof fn lemma_list_margin<T: Parse>(sep: char, max: usize, s: Seq<char>)
    ensures
        spec_parse_list_unbounded::<T>(sep, s) matches SpecProgress::Parsed(ms, rest) ==> (
        ms.len() <= max || ms.len() == 1 ==> spec_parse_list::<T>(sep, max, s) == SpecProgress::<
            Seq<T::Model>,
        >::Parsed(ms, rest)),
        spec_parse_list_unbounded::<T>(sep, s) matches SpecProgress::Parsed(ms, _) ==> (ms.len()
            > max && ms.len() > 1 ==> spec_parse_list::<T>(sep, max, s) == SpecProgress::<
            Seq<T::Model>,
        >::Fatal(Diag::ListOverflow)),
{
    if let SpecProgress::Parsed(m, rest) = T::spec_parse(s) {
        lemma_list_rest_margin::<T>(sep, max, rest, seq![m]);
    }
}

/// A list tail that stops leaves a suffix of the input it was given.
pub proof fn lemma_list_rest_consumes<T: Parse>(
    sep: char,
    max: usize,
    s: Seq<char>,
    acc: Seq<T::Model>,
)
    ensures
        spec_list_rest::<T>(sep, max, s, acc) matches SpecProgress::Parsed(_, rest)
            ==> is_suffix_of(rest, s),
    decreases s.len(),
{
    if !syntax_present(sep, s) {
        lemma_suffix_refl(s);
    } else if acc.len() < max {
        let after = after_syntax(s);
        lemma_ws_count_bounds(s.skip(1));
        lemma_skip_is_suffix(s, 1 + ws_count(s.skip(1)));
        T::lemma_parse_consumes(after);
        if let SpecProgress::Parsed(m, rest) = T::spec_parse(after) {
            if rest.len() < s.len() {
                lemma_list_rest_consumes::<T>(sep, max, rest, acc.push(m));
                lemma_suffix_trans(rest, after, s);
                if let SpecProgress::Parsed(_, fin) = spec_list_rest::<T>(
                    sep,
                    max,
                    rest,
                    acc.push(m),
                ) {
                    lemma_suffix_trans(fin, rest, s);
                }
            }
        }
    }
}

/// A successful list parse leaves a suffix of its input.
pub proof fn lemma_parse_list_consumes<T: Parse>(sep: char, max: usize, s: Seq<char>)
    ensures
        spec_parse_list::<T>(sep, max, s) matches SpecProgress::Parsed(_, rest) ==> is_suffix_of(
            rest,
            s,
        ),
{
    T::lemma_parse_consumes(s);
    if let SpecProgress::Parsed(m, rest) = T::spec_parse(s) {
        lemma_list_rest_consumes::<T>(sep, max, rest, seq![m]);
        if let SpecProgress::Parsed(_, fin) = spec_list_rest::<T>(sep, max, rest, seq![m]) {
            lemma_suffix_trans(fin, rest, s);
        }
    }
}

/// The relation [`parse_list`] establishes between the input `pre`, the
/// remaining input `post` and the returned outcome `r`.
pub open spec fn list_post<T: Parse>(
    sep: char,
    max: usize,
    pre: Seq<char>,
    post: Seq<char>,
    r: Progress<Vec<T>>,
) -> bool {
    match r {
        Progress::Parsed(v) => spec_parse_list::<T>(sep, max, pre) matches SpecProgress::Parsed(
            ms,
            rest,
        ) && ms == models_of::<T>(v@) && rest == post,
        Progress::Absent => spec_parse_list::<T>(sep, max, pre) is Absent && post == pre,
        Progress::Fatal(d) => spec_parse_list::<T>(sep, max, pre) matches SpecProgress::Fatal(sd)
            && sd == d,
    }
}

/// Parses a non-empty list of `T` separated by `sep_by`, at most `max`
/// elements. The first element is mandatory for the list to exist at all;
/// after each separator the next element is mandatory on pain of a fatal
/// [`Diag::MissingElement`]; `max` elements followed by a further separator
/// are the fatal [`Diag::ListOverflow`].
#[verifier::loop_isolation(false)]
pub fn parse_list<T: Parse>(sep_by: char, max: usize, cursor: &mut Cursor) -> (r: Progress<
    Vec<T>,
>)
    ensures
        list_post::<T>(sep_by, max, old(cursor)@, final(cursor)@, r),
{
    let mut elems: Vec<T> = Vec::new();
    match maybe::<T>(cursor) {
        Progress::Absent => return Progress::Absent,
        Progress::Fatal(d) => return Progress::Fatal(d),
        Progress::Parsed(v) => {
            proof {
                assert(models_of::<T>(seq![v]) =~= seq![T::model(&v)]);
                assert(elems@.push(v) =~= seq![v]);
            }
            elems.push(v);
        },
    }
    loop
        invariant
            elems@.len() >= 1,
            spec_parse_list::<T>(sep_by, max, old(cursor)@) == spec_list_rest::<T>(
                sep_by,
                max,
                cursor@,
                models_of::<T>(elems@),
            ),
        decreases cursor@.len(),
    {
        let ghost before: Seq<char> = cursor@;
        match maybe_syntax(sep_by, cursor) {
            None => {
                return Progress::Parsed(elems);
            },
            Some(_) => {
                if elems.len() >= max {
                    return Progress::Fatal(Diag::ListOverflow);
                }
                proof {
                    lemma_ws_count_bounds(before.skip(1));
                }
                match require::<T>(cursor) {
                    Progress::Parsed(v) => {
                        proof {
                            T::lemma_parse_consumes(after_syntax(before));
                            lemma_models_of_push::<T>(elems@, v);
                        }
                        elems.push(v);
                    },
                    Progress::Absent => {
                        proof {
                            assert(false);
                        }
                        return Progress::Fatal(Diag::MissingElement);
                    },
                    Progress::Fatal(d) => {
                        return Progress::Fatal(d);
                    },
                }
            },
        }
    }
}

/// A non-empty separator-delimited list of a parseable, list-configured
/// element type.
impl<T: Parse + Many> Parse for Vec<T> {
    type Model = Seq<<T as Parse>::Model>;

    open spec fn model(v: &Vec<T>) -> Self::Model {
        models_of::<T>(v@)
    }

    open spec fn spec_parse(s: Seq<char>) -> SpecProgress<Self::Model> {
        spec_parse_list::<T>(T::spec_sep(), T::spec_limit(), s)
    }

    proof fn lemma_parse_consumes(s: Seq<char>) {
        lemma_parse_list_consumes::<T>(T::spec_sep(), T::spec_limit(), s);
    }

    fn parse(cursor: &mut Cursor) -> (r: Progress<Vec<T>>) {
        parse_list::<T>(T::sep(), T::limit(), cursor)
    }
}

} // verus!
