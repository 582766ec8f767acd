//! The token contract, and the maximal-munch tokenizer every token class
//! gets from it.

use vstd::prelude::*;
use vstd::seq_lib::lemma_seq_skip_of_skip;

use crate::cursor::Cursor;
use crate::outcome::{
    is_suffix_of, lemma_skip_is_suffix, lemma_suffix_refl, lemma_suffix_trans, Diag, Progress,
    SpecProgress,
};
use crate::parse::Parse;
use crate::whitespace::{lemma_ws_count_bounds, skip_ambient, ws_count};

verus! {

/// A lexical class: a first-character rule, a continuation rule, an escape
/// rule and a maximum accumulated length, together with a constructor from
/// the accumulated text to the token's value type.
///
/// Each executable rule must agree with its specification twin, and every
/// implementor receives [`Parse`] through the blanket implementation below:
/// a maximal-munch scan that interleaves normal characters, escape sequences
/// and the stop condition, bounds the accumulated length, and skips the
/// ambient whitespace after the token.
pub trait Token: Sized {
    /// The mathematical model of a finished token.
    type Model;

    /// The model of the token value `v`.
    spec fn token_model(v: &Self) -> Self::Model;

    /// The continuation rule: whether `c` may stand in the token's body.
    spec fn spec_accept(c: char) -> bool;

    /// The executable test for [`Token::spec_accept`].
    fn accept(c: char) -> (b: bool)
        ensures
            b == Self::spec_accept(c),
    ;

    /// The first-character rule; most classes make it the continuation rule.
    spec fn spec_accept_1st(c: char) -> bool;

    /// The executable test for [`Token::spec_accept_1st`].
    fn accept_1st(c: char) -> (b: bool)
        ensures
            b == Self::spec_accept_1st(c),
    ;

    /// The escape trigger character; a character no input contains (such as
    /// `'\0'`) means the class does no escaping.
    spec fn spec_escape() -> char;

    /// The executable value of [`Token::spec_escape`].
    fn escape() -> (c: char)
        ensures
            c == Self::spec_escape(),
    ;

    /// Which characters are legal immediately after the escape trigger.
    spec fn spec_escaped(c: char) -> bool;

    /// The executable test for [`Token::spec_escaped`].
    fn escaped(c: char) -> (b: bool)
        ensures
            b == Self::spec_escaped(c),
    ;

    /// The maximum accumulated length: a token whose text reaches this many
    /// characters is a resource-exhaustion condition, not a grammar limit.
    spec fn spec_max_len() -> usize;

    /// The executable value of [`Token::spec_max_len`].
    fn max_len() -> (n: usize)
        ensures
            n == Self::spec_max_len(),
    ;

    /// What token value the accumulated text denotes.
    spec fn spec_build(text: Seq<char>) -> Self::Model;

    /// The constructor from the accumulated text to the token value.
    fn build(text: Vec<char>) -> (t: Self)
        ensures
            Self::token_model(&t) == Self::spec_build(text@),
    ;
}

/// Where the munch loop of the tokenizer comes to rest: the accumulated
/// text with the input left over, or a fatal diagnosis.
pub enum ScanState {
    /// The accumulated token text, and the input left after it.
    Stopped(Seq<char>, Seq<char>),
    /// An illegal escape sequence, or text grown to the maximum length.
    Failed(Diag),
}

/// One maximal munch over `s`, having already accumulated `acc`.
///
/// A continuation character is appended; an escape trigger followed by a
/// legal escaped character appends the escaped character alone (the trigger
/// is dropped); anything else stops the munch. Text reaching the maximum
/// length is fatal, as is an escape trigger followed by an illegal character
/// or by the end of the input.
pub open spec fn spec_scan<T: Token>(s: Seq<char>, acc: Seq<char>) -> ScanState
    decreases s.len(),
{
    if s.len() > 0 && T::spec_accept(s[0]) {
        if acc.len() + 1 >= T::spec_max_len() {
            ScanState::Failed(Diag::TokenOverflow)
        } else {
            spec_scan::<T>(s.skip(1), acc.push(s[0]))
        }
    } else if s.len() > 0 && s[0] == T::spec_escape() {
        if s.len() >= 2 && T::spec_escaped(s[1]) {
            if acc.len() + 1 >= T::spec_max_len() {
                ScanState::Failed(Diag::TokenOverflow)
            } else {
                spec_scan::<T>(s.skip(2), acc.push(s[1]))
            }
        } else {
            ScanState::Failed(Diag::IllegalEscape)
        }
    } else {
        ScanState::Stopped(acc, s)
    }
}

/// What tokenizing does to the input `s`: absent unless the first character
/// obeys the first-character rule; otherwise a maximal munch from the second
/// character on, the ambient whitespace after the token skipped, and the
/// text handed to the class's constructor.
pub open spec fn spec_tokenize<T: Token>(s: Seq<char>) -> SpecProgress<T::Model> {
    if s.len() == 0 || !T::spec_accept_1st(s[0]) {
        SpecProgress::Absent
    } else {
        match spec_scan::<T>(s.skip(1), seq![s[0]]) {
            ScanState::Failed(d) => SpecProgress::Fatal(d),
            ScanState::Stopped(text, rest) => SpecProgress::Parsed(
                T::spec_build(text),
                rest.skip(ws_count(rest)),
            ),
        }
    }
}

/// The munch of [`spec_scan`] with the length bound ignored: what the
/// tokenizer would accumulate were no safety margin configured. The margin
/// laws below are stated against it.
pub open spec fn spec_scan_unbounded<T: Token>(s: Seq<char>, acc: Seq<char>) -> ScanState
    decreases s.len(),
{
    if s.len() > 0 && T::spec_accept(s[0]) {
        spec_scan_unbounded::<T>(s.skip(1), acc.push(s[0]))
    } else if s.len() > 0 && s[0] == T::spec_escape() {
        if s.len() >= 2 && T::spec_escaped(s[1]) {
            spec_scan_unbounded::<T>(s.skip(2), acc.push(s[1]))
        } else {
            ScanState::Failed(Diag::IllegalEscape)
        }
    } else {
        ScanState::Stopped(acc, s)
    }
}

/// The token safety margin, relative to the unbounded munch: text that stays
/// under the maximum length is accumulated whole; text that never grows past
/// `acc` is never length-checked; and text that grows to the maximum length
/// or beyond is rejected as [`Diag::TokenOverflow`].
pub proof fn lemma_scan_margin<T: Token>(s: Seq<char>, acc: Seq<char>)
    ensures
        spec_scan_unbounded::<T>(s, acc) matches ScanState::Stopped(text, _) ==> text.len()
            >= acc.len(),
        spec_scan_unbounded::<T>(s, acc) matches ScanState::Stopped(text, rest) ==> (text.len()
            < T::spec_max_len() ==> spec_scan::<T>(s, acc) == ScanState::Stopped(text, rest)),
        spec_scan_unbounded::<T>(s, acc) matches ScanState::Stopped(text, rest) ==> (text.len()
            == acc.len() ==> spec_scan::<T>(s, acc) == ScanState::Stopped(text, rest)),
        spec_scan_unbounded::<T>(s, acc) matches ScanState::Stopped(text, _) ==> (text.len()
            >= T::spec_max_len() && text.len() > acc.len() ==> spec_scan::<T>(s, acc)
            == ScanState::Failed(Diag::TokenOverflow)),
    decreases s.len(),
{
    if s.len() > 0 && T::spec_accept(s[0]) {
        lemma_scan_margin::<T>(s.skip(1), acc.push(s[0]));
    } else if s.len() > 0 && s[0] == T::spec_escape() {
        if s.len() >= 2 && T::spec_escaped(s[1]) {
            lemma_scan_margin::<T>(s.skip(2), acc.push(s[1]));
        }
    }
}

/// The token safety margin at the level of the whole input: when the
/// unbounded munch of the input stops, a text shorter than the maximum
/// length (or of one character — a lone first character is never
/// length-checked) is parsed whole, and a longer one is the fatal
/// [`Diag::TokenOverflow`]. The boundary convention: text *reaching* the
/// maximum length is already rejected.
pub proof fn lemma_tokenize_margin<T: Token>(s: Seq<char>)
    ensures
        spec_scan_unbounded::<T>(s.skip(1), seq![s[0]]) matches ScanState::Stopped(text, rest)
            ==> (s.len() > 0 && T::spec_accept_1st(s[0]) && (text.len() < T::spec_max_len()
            || text.len() == 1) ==> spec_tokenize::<T>(s) == SpecProgress::<T::Model>::Parsed(
            T::spec_build(text),
            rest.skip(ws_count(rest)),
        )),
        spec_scan_unbounded::<T>(s.skip(1), seq![s[0]]) matches ScanState::Stopped(text, _) ==> (
        s.len() > 0 && T::spec_accept_1st(s[0]) && text.len() >= T::spec_max_len() && text.len()
            > 1 ==> spec_tokenize::<T>(s) == SpecProgress::<T::Model>::Fatal(Diag::TokenOverflow)),
{
    if s.len() > 0 && T::spec_accept_1st(s[0]) {
        lemma_scan_margin::<T>(s.skip(1), seq![s[0]]);
    }
}

/// A munch that stops leaves a suffix of the input it was given.
pub proof fn lemma_scan_consumes<T: Token>(s: Seq<char>, acc: Seq<char>)
    ensures
        spec_scan::<T>(s, acc) matches ScanState::Stopped(_, rest) ==> is_suffix_of(rest, s),
    decreases s.len(),
{
    let sc = spec_scan::<T>(s, acc);
    if s.len() > 0 && T::spec_accept(s[0]) {
        if acc.len() + 1 < T::spec_max_len() {
            lemma_scan_consumes::<T>(s.skip(1), acc.push(s[0]));
            lemma_skip_is_suffix(s, 1);
            if let ScanState::Stopped(_, rest) = sc {
                lemma_suffix_trans(rest, s.skip(1), s);
            }
        }
    } else if s.len() > 0 && s[0] == T::spec_escape() {
        if s.len() >= 2 && T::spec_escaped(s[1]) && acc.len() + 1 < T::spec_max_len() {
            lemma_scan_consumes::<T>(s.skip(2), acc.push(s[1]));
            lemma_skip_is_suffix(s, 2);
            if let ScanState::Stopped(_, rest) = sc {
                lemma_suffix_trans(rest, s.skip(2), s);
            }
        }
    } else {
        lemma_suffix_refl(s);
    }
}

/// A munch that stops does so before a character that neither continues the
/// token nor triggers an escape: it consumes the longest prefix it can.
pub proof fn lemma_scan_maximal<T: Token>(s: Seq<char>, acc: Seq<char>)
    ensures
        spec_scan::<T>(s, acc) matches ScanState::Stopped(_, rest) ==> rest.len() == 0 || (
        !T::spec_accept(rest[0]) && rest[0] != T::spec_escape()),
    decreases s.len(),
{
    if s.len() > 0 && T::spec_accept(s[0]) {
        if acc.len() + 1 < T::spec_max_len() {
            lemma_scan_maximal::<T>(s.skip(1), acc.push(s[0]));
        }
    } else if s.len() > 0 && s[0] == T::spec_escape() {
        if s.len() >= 2 && T::spec_escaped(s[1]) && acc.len() + 1 < T::spec_max_len() {
            lemma_scan_maximal::<T>(s.skip(2), acc.push(s[1]));
        }
    }
}

impl<T: Token> Parse for T {
    type Model = <T as Token>::Model;

    open spec fn model(v: &T) -> <T as Token>::Model {
        T::token_model(v)
    }

    open spec fn spec_parse(s: Seq<char>) -> SpecProgress<<T as Token>::Model> {
        spec_tokenize::<T>(s)
    }

    proof fn lemma_parse_consumes(s: Seq<char>) {
        if s.len() > 0 && T::spec_accept_1st(s[0]) {
            lemma_scan_consumes::<T>(s.skip(1), seq![s[0]]);
            lemma_skip_is_suffix(s, 1);
            if let ScanState::Stopped(_, rest) = spec_scan::<T>(s.skip(1), seq![s[0]]) {
                lemma_ws_count_bounds(rest);
                lemma_skip_is_suffix(rest, ws_count(rest));
                lemma_suffix_trans(rest, s.skip(1), s);
                lemma_suffix_trans(rest.skip(ws_count(rest)), rest, s);
            }
        }
    }

    fn parse(cursor: &mut Cursor) -> (r: Progress<T>) {
        let first = match cursor.peek() {
            None => return Progress::Absent,
            Some(c) => c,
        };
        if !T::accept_1st(first) {
            return Progress::Absent;
        }
        cursor.advance();
        let mut text: Vec<char> = Vec::new();
        text.push(first);
        let max = T::max_len();
        proof {
            assert(text@ =~= seq![first]);
        }
        let ghost tail0: Seq<char> = cursor@;
        let mut failure: Option<Diag> = None;
        loop
            invariant_except_break
                failure is None,
                spec_scan::<T>(tail0, seq![first]) == spec_scan::<T>(cursor@, text@),
                max == T::spec_max_len(),
            ensures
                match failure {
                    None => spec_scan::<T>(tail0, seq![first]) == ScanState::Stopped(
                        text@,
                        cursor@,
                    ),
                    Some(d) => spec_scan::<T>(tail0, seq![first]) == ScanState::Failed(d),
                },
            decreases cursor@.len(),
        {
            let ghost before: Seq<char> = cursor@;
            let next = cursor.peek();
            match next {
                None => { break; },
                Some(c) => {
                    if T::accept(c) {
                        cursor.advance();
                        text.push(c);
                    } else if c == T::escape() {
                        cursor.advance();
                        let following = cursor.peek();
                        match following {
                            None => {
                                failure = Some(Diag::IllegalEscape);
                                break;
                            },
                            Some(e) => {
                                if T::escaped(e) {
                                    cursor.advance();
                                    text.push(e);
                                    proof {
                                        lemma_seq_skip_of_skip(before, 1, 1);
                                    }
                                } else {
                                    failure = Some(Diag::IllegalEscape);
                                    break;
                                }
                            },
                        }
                    } else {
                        break;
                    }
                    if text.len() >= max {
                        failure = Some(Diag::TokenOverflow);
                        break;
                    }
                },
            }
        }
        match failure {
            Some(d) => Progress::Fatal(d),
            None => {
                skip_ambient(cursor);
                let t = T::build(text);
                Progress::Parsed(t)
            },
        }
    }
}

} // verus!
