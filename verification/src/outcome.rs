//! The two-tier outcome of a parse attempt, and its specification-level twin.

use vstd::prelude::*;

verus! {

/// A fatal diagnosis: malformed input or a safety-margin overrun.
///
/// These conditions end the whole parse; they are not recoverable inside the
/// toolkit. Absence of an optional element is *not* a diagnosis — it is the
/// [`Progress::Absent`] outcome, which consumes nothing.
#[derive(Clone, Copy, PartialEq, Eq, Debug)]
pub enum Diag {
    /// A mandatory syntax character was not next. Holds the expected
    /// character and the character actually found, `None` standing for the
    /// end of the input.
    Expected(char, Option<char>),
    /// A mandatory grammar element was absent.
    MissingElement,
    /// An escape trigger was not followed by a legal escaped character.
    IllegalEscape,
    /// A token reached its maximum accumulated length.
    TokenOverflow,
    /// A list reached its maximum element count.
    ListOverflow,
}

impl Diag {
    /// A short phrase naming the condition, for a caller's diagnostics.
    pub fn describe(&self) -> (r: &'static str)
        ensures
            r@ == match *self {
                Diag::Expected(_, _) => "parse error: expected syntax character"@,
                Diag::MissingElement => "parse error: expected element"@,
                Diag::IllegalEscape => "tokenizer: illegal escape sequence"@,
                Diag::TokenOverflow => "tokenizer: exceeded safety margin"@,
                Diag::ListOverflow => "parse_list: safety margin exceeded"@,
            },
    {
        match self {
            Diag::Expected(_, _) => "parse error: expected syntax character",
            Diag::MissingElement => "parse error: expected element",
            Diag::IllegalEscape => "tokenizer: illegal escape sequence",
            Diag::TokenOverflow => "tokenizer: exceeded safety margin",
            Diag::ListOverflow => "parse_list: safety margin exceeded",
        }
    }
}

/// What a parse attempt came to.
pub enum Progress<T> {
    /// The element was present; its parsed value.
    Parsed(T),
    /// The element was not present here; nothing was consumed.
    Absent,
    /// The input is malformed or a safety margin was exceeded.
    Fatal(Diag),
}

/// The specification-level outcome of a parse on a character sequence:
/// the parsed value's model together with the remaining input, or absence,
/// or a fatal diagnosis.
pub enum SpecProgress<M> {
    /// The model of the parsed value, and the input left after it.
    Parsed(M, Seq<char>),
    /// The element is not present at the front of the input.
    Absent,
    /// The input is malformed or a safety margin is exceeded.
    Fatal(Diag),
}

/// `t` is what remains of `s` after consuming zero or more leading characters.
pub open spec fn is_suffix_of(t: Seq<char>, s: Seq<char>) -> bool {
    t.len() <= s.len() && t == s.skip(s.len() - t.len())
}

/// Consuming nothing leaves a suffix.
pub proof fn lemma_suffix_refl(s: Seq<char>)
    ensures
        is_suffix_of(s, s),
{
    assert(s.skip(0) =~= s);
}

/// What `skip` leaves is a suffix.
pub proof fn lemma_skip_is_suffix(s: Seq<char>, n: int)
    requires
        0 <= n <= s.len(),
    ensures
        is_suffix_of(s.skip(n), s),
{
    assert(s.skip(s.len() - s.skip(n).len()) =~= s.skip(n));
}

/// A suffix of a suffix is a suffix.
pub proof fn lemma_suffix_trans(u: Seq<char>, t: Seq<char>, s: Seq<char>)
    requires
        is_suffix_of(u, t),
        is_suffix_of(t, s),
    ensures
        is_suffix_of(u, s),
{
    assert(s.skip(s.len() - u.len()) =~= u);
}

} // verus!
