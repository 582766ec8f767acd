use basic_parser::whitespace::skip_ambient;
use basic_parser::{
    accept_if, end_of_parse, maybe, maybe_syntax, parse_list, require, require_syntax, CharIs,
    Cursor, Diag, Many, Parse, Progress, Token, Whitespace,
};

fn cur(s: &str) -> Cursor {
    Cursor::new(s.chars().collect())
}

fn rest(c: &Cursor) -> String {
    c.remaining().into_iter().collect()
}

// Outside the verifier, the specification-level items of the `Token` and
// `Many` traits are ordinary trait functions; the implementations below
// restate each executable rule for them.

struct DigitTok(String);

impl Token for DigitTok {
    type Model = ();

    fn accept(c: char) -> bool {
        c.is_ascii_digit()
    }

    fn accept_1st(c: char) -> bool {
        c.is_ascii_digit()
    }

    fn escape() -> char {
        '\0'
    }

    fn escaped(_c: char) -> bool {
        false
    }

    fn max_len() -> usize {
        255
    }

    fn build(text: Vec<char>) -> Self {
        DigitTok(text.into_iter().collect())
    }

    fn token_model(_: &Self) -> () {
        ()
    }

    fn spec_accept(c: char) -> bool {
        c.is_ascii_digit()
    }

    fn spec_accept_1st(c: char) -> bool {
        c.is_ascii_digit()
    }

    fn spec_escape() -> char {
        '\0'
    }

    fn spec_escaped(_c: char) -> bool {
        false
    }

    fn spec_max_len() -> usize {
        255
    }

    fn spec_build(_: vstd::seq::Seq<char>) -> () {
        ()
    }
}

impl Many for DigitTok {
    fn sep() -> char {
        ','
    }

    fn limit() -> usize {
        127
    }

    fn spec_sep() -> char {
        ','
    }

    fn spec_limit() -> usize {
        127
    }
}

struct LetterTok(String);

impl Token for LetterTok {
    type Model = ();

    fn accept(c: char) -> bool {
        c.is_ascii_alphabetic()
    }

    fn accept_1st(c: char) -> bool {
        c.is_ascii_alphabetic()
    }

    fn escape() -> char {
        '\0'
    }

    fn escaped(_c: char) -> bool {
        false
    }

    fn max_len() -> usize {
        255
    }

    fn build(text: Vec<char>) -> Self {
        LetterTok(text.into_iter().collect())
    }

    fn token_model(_: &Self) -> () {
        ()
    }

    fn spec_accept(c: char) -> bool {
        c.is_ascii_alphabetic()
    }

    fn spec_accept_1st(c: char) -> bool {
        c.is_ascii_alphabetic()
    }

    fn spec_escape() -> char {
        '\0'
    }

    fn spec_escaped(_c: char) -> bool {
        false
    }

    fn spec_max_len() -> usize {
        255
    }

    fn spec_build(_: vstd::seq::Seq<char>) -> () {
        ()
    }
}

/// Letters, with `\` escaping any character at all.
struct EscTok(String);

impl Token for EscTok {
    type Model = ();

    fn accept(c: char) -> bool {
        c.is_ascii_alphabetic()
    }

    fn accept_1st(c: char) -> bool {
        c.is_ascii_alphabetic()
    }

    fn escape() -> char {
        '\\'
    }

    fn escaped(_c: char) -> bool {
        true
    }

    fn max_len() -> usize {
        255
    }

    fn build(text: Vec<char>) -> Self {
        EscTok(text.into_iter().collect())
    }

    fn token_model(_: &Self) -> () {
        ()
    }

    fn spec_accept(c: char) -> bool {
        c.is_ascii_alphabetic()
    }

    fn spec_accept_1st(c: char) -> bool {
        c.is_ascii_alphabetic()
    }

    fn spec_escape() -> char {
        '\\'
    }

    fn spec_escaped(_c: char) -> bool {
        true
    }

    fn spec_max_len() -> usize {
        255
    }

    fn spec_build(_: vstd::seq::Seq<char>) -> () {
        ()
    }
}

/// Letters, with `\` escaping only digits.
struct StrictEscTok(String);

impl Token for StrictEscTok {
    type Model = ();

    fn accept(c: char) -> bool {
        c.is_ascii_alphabetic()
    }

    fn accept_1st(c: char) -> bool {
        c.is_ascii_alphabetic()
    }

    fn escape() -> char {
        '\\'
    }

    fn escaped(c: char) -> bool {
        c.is_ascii_digit()
    }

    fn max_len() -> usize {
        255
    }

    fn build(text: Vec<char>) -> Self {
        StrictEscTok(text.into_iter().collect())
    }

    fn token_model(_: &Self) -> () {
        ()
    }

    fn spec_accept(c: char) -> bool {
        c.is_ascii_alphabetic()
    }

    fn spec_accept_1st(c: char) -> bool {
        c.is_ascii_alphabetic()
    }

    fn spec_escape() -> char {
        '\\'
    }

    fn spec_escaped(c: char) -> bool {
        c.is_ascii_digit()
    }

    fn spec_max_len() -> usize {
        255
    }

    fn spec_build(_: vstd::seq::Seq<char>) -> () {
        ()
    }
}

/// Digits with a maximum accumulated length of 4.
struct ShortTok(String);

impl Token for ShortTok {
    type Model = ();

    fn accept(c: char) -> bool {
        c.is_ascii_digit()
    }

    fn accept_1st(c: char) -> bool {
        c.is_ascii_digit()
    }

    fn escape() -> char {
        '\0'
    }

    fn escaped(_c: char) -> bool {
        false
    }

    fn max_len() -> usize {
        4
    }

    fn build(text: Vec<char>) -> Self {
        ShortTok(text.into_iter().collect())
    }

    fn token_model(_: &Self) -> () {
        ()
    }

    fn spec_accept(c: char) -> bool {
        c.is_ascii_digit()
    }

    fn spec_accept_1st(c: char) -> bool {
        c.is_ascii_digit()
    }

    fn spec_escape() -> char {
        '\0'
    }

    fn spec_escaped(_c: char) -> bool {
        false
    }

    fn spec_max_len() -> usize {
        4
    }

    fn spec_build(_: vstd::seq::Seq<char>) -> () {
        ()
    }
}

/// Identifiers: a letter first, then letters or digits.
struct IdentTok(String);

impl Token for IdentTok {
    type Model = ();

    fn accept(c: char) -> bool {
        c.is_ascii_alphanumeric()
    }

    fn accept_1st(c: char) -> bool {
        c.is_ascii_alphabetic()
    }

    fn escape() -> char {
        '\0'
    }

    fn escaped(_c: char) -> bool {
        false
    }

    fn max_len() -> usize {
        255
    }

    fn build(text: Vec<char>) -> Self {
        IdentTok(text.into_iter().collect())
    }

    fn token_model(_: &Self) -> () {
        ()
    }

    fn spec_accept(c: char) -> bool {
        c.is_ascii_alphanumeric()
    }

    fn spec_accept_1st(c: char) -> bool {
        c.is_ascii_alphabetic()
    }

    fn spec_escape() -> char {
        '\0'
    }

    fn spec_escaped(_c: char) -> bool {
        false
    }

    fn spec_max_len() -> usize {
        255
    }

    fn spec_build(_: vstd::seq::Seq<char>) -> () {
        ()
    }
}

/// Digits with a maximum accumulated length of 1.
struct TinyTok(String);

impl Token for TinyTok {
    type Model = ();

    fn accept(c: char) -> bool {
        c.is_ascii_digit()
    }

    fn accept_1st(c: char) -> bool {
        c.is_ascii_digit()
    }

    fn escape() -> char {
        '\0'
    }

    fn escaped(_c: char) -> bool {
        false
    }

    fn max_len() -> usize {
        1
    }

    fn build(text: Vec<char>) -> Self {
        TinyTok(text.into_iter().collect())
    }

    fn token_model(_: &Self) -> () {
        ()
    }

    fn spec_accept(c: char) -> bool {
        c.is_ascii_digit()
    }

    fn spec_accept_1st(c: char) -> bool {
        c.is_ascii_digit()
    }

    fn spec_escape() -> char {
        '\0'
    }

    fn spec_escaped(_c: char) -> bool {
        false
    }

    fn spec_max_len() -> usize {
        1
    }

    fn spec_build(_: vstd::seq::Seq<char>) -> () {
        ()
    }
}

#[test]
fn lookahead_accepts_and_consumes_one() {
    let mut c = cur("abc");
    let r = accept_if(&CharIs { wanted: 'a' }, &mut c);
    assert_eq!(r, Some('a'));
    assert_eq!(rest(&c), "bc");
}

#[test]
fn lookahead_rejection_consumes_nothing() {
    let mut c = cur("abc");
    let r = accept_if(&CharIs { wanted: 'x' }, &mut c);
    assert_eq!(r, None);
    assert_eq!(rest(&c), "abc");
}

#[test]
fn lookahead_end_of_input_consumes_nothing() {
    let mut c = cur("");
    let r = accept_if(&CharIs { wanted: 'x' }, &mut c);
    assert_eq!(r, None);
    assert_eq!(rest(&c), "");
}

#[test]
fn ambient_whitespace_skip_is_idempotent() {
    let mut c = cur(" \t\n x y");
    skip_ambient(&mut c);
    assert_eq!(rest(&c), "x y");
    skip_ambient(&mut c);
    assert_eq!(rest(&c), "x y");
}

#[test]
fn ambient_whitespace_skip_of_nothing() {
    let mut c = cur("xy");
    skip_ambient(&mut c);
    assert_eq!(rest(&c), "xy");
}

#[test]
fn mandatory_whitespace_needs_one_character() {
    let mut c = cur("x");
    match maybe::<Whitespace>(&mut c) {
        Progress::Absent => {}
        _ => panic!("whitespace should be absent"),
    }
    assert_eq!(rest(&c), "x");

    let mut c = cur("  \t x");
    match maybe::<Whitespace>(&mut c) {
        Progress::Parsed(Whitespace) => {}
        _ => panic!("whitespace should be present"),
    }
    assert_eq!(rest(&c), "x");
}

#[test]
fn token_maximal_munch() {
    let mut c = cur("123abc");
    match maybe::<DigitTok>(&mut c) {
        Progress::Parsed(DigitTok(text)) => assert_eq!(text, "123"),
        _ => panic!("digits should parse"),
    }
    assert_eq!(rest(&c), "abc");
}

#[test]
fn token_skips_trailing_whitespace() {
    let mut c = cur("42  abc");
    match maybe::<DigitTok>(&mut c) {
        Progress::Parsed(DigitTok(text)) => assert_eq!(text, "42"),
        _ => panic!("digits should parse"),
    }
    assert_eq!(rest(&c), "abc");
}

#[test]
fn token_absent_when_first_character_rejected() {
    let mut c = cur("abc");
    match maybe::<DigitTok>(&mut c) {
        Progress::Absent => {}
        _ => panic!("digits should be absent"),
    }
    assert_eq!(rest(&c), "abc");
}

#[test]
fn escape_keeps_escaped_character_drops_trigger() {
    let mut c = cur("a\\xb!");
    match maybe::<EscTok>(&mut c) {
        Progress::Parsed(EscTok(text)) => assert_eq!(text, "axb"),
        _ => panic!("escaped token should parse"),
    }
    assert_eq!(rest(&c), "!");
}

#[test]
fn escape_of_non_letter_round_trips() {
    let mut c = cur("ab\\!cd");
    match maybe::<EscTok>(&mut c) {
        Progress::Parsed(EscTok(text)) => assert_eq!(text, "ab!cd"),
        _ => panic!("escaped token should parse"),
    }
    assert_eq!(rest(&c), "");
}

#[test]
fn illegal_escape_is_fatal() {
    let mut c = cur("ab\\!x");
    match maybe::<StrictEscTok>(&mut c) {
        Progress::Fatal(d) => assert_eq!(d, Diag::IllegalEscape),
        _ => panic!("illegal escape should be fatal"),
    }
}

#[test]
fn escape_at_end_of_input_is_fatal() {
    let mut c = cur("ab\\");
    match maybe::<EscTok>(&mut c) {
        Progress::Fatal(d) => assert_eq!(d, Diag::IllegalEscape),
        _ => panic!("trailing escape should be fatal"),
    }
}

#[test]
fn token_under_its_maximum_length_succeeds() {
    let mut c = cur("123 x");
    match maybe::<ShortTok>(&mut c) {
        Progress::Parsed(ShortTok(text)) => assert_eq!(text, "123"),
        _ => panic!("three digits fit under the bound"),
    }
    assert_eq!(rest(&c), "x");
}

#[test]
fn token_reaching_its_maximum_length_is_fatal() {
    let mut c = cur("1234 x");
    match maybe::<ShortTok>(&mut c) {
        Progress::Fatal(d) => assert_eq!(d, Diag::TokenOverflow),
        _ => panic!("four digits reach the bound"),
    }
}

#[test]
fn alternation_takes_primary_on_digit() {
    let mut c = cur("9x");
    match maybe::<Result<DigitTok, LetterTok>>(&mut c) {
        Progress::Parsed(Ok(DigitTok(text))) => assert_eq!(text, "9"),
        _ => panic!("digit should take the primary branch"),
    }
    assert_eq!(rest(&c), "x");
}

#[test]
fn alternation_takes_fallback_on_letter() {
    let mut c = cur("x9");
    match maybe::<Result<DigitTok, LetterTok>>(&mut c) {
        Progress::Parsed(Err(LetterTok(text))) => assert_eq!(text, "x"),
        _ => panic!("letter should take the fallback branch"),
    }
    assert_eq!(rest(&c), "9");
}

#[test]
fn alternation_absent_on_empty_input() {
    let mut c = cur("");
    match maybe::<Result<DigitTok, LetterTok>>(&mut c) {
        Progress::Absent => {}
        _ => panic!("nothing to parse"),
    }
}

#[test]
fn alternation_absent_when_both_reject() {
    let mut c = cur("!x");
    match maybe::<Result<DigitTok, LetterTok>>(&mut c) {
        Progress::Absent => {}
        _ => panic!("neither class accepts '!'"),
    }
    assert_eq!(rest(&c), "!x");
}

#[test]
fn require_present_element_parses() {
    let mut c = cur("7b");
    match require::<DigitTok>(&mut c) {
        Progress::Parsed(DigitTok(text)) => assert_eq!(text, "7"),
        _ => panic!("digit should parse"),
    }
    assert_eq!(rest(&c), "b");
}

#[test]
fn require_absent_element_is_fatal() {
    let mut c = cur("b");
    match require::<DigitTok>(&mut c) {
        Progress::Fatal(d) => assert_eq!(d, Diag::MissingElement),
        _ => panic!("absent mandatory element should be fatal"),
    }
    assert_eq!(rest(&c), "b");
}

#[test]
fn maybe_syntax_present_skips_trailing_whitespace() {
    let mut c = cur(",  x");
    assert_eq!(maybe_syntax(',', &mut c), Some(()));
    assert_eq!(rest(&c), "x");
}

#[test]
fn maybe_syntax_absent_consumes_nothing() {
    let mut c = cur("x,");
    assert_eq!(maybe_syntax(',', &mut c), None);
    assert_eq!(rest(&c), "x,");
}

#[test]
fn require_syntax_reports_found_character() {
    let mut c = cur("x");
    match require_syntax(',', &mut c) {
        Progress::Fatal(d) => assert_eq!(d, Diag::Expected(',', Some('x'))),
        _ => panic!("missing syntax should be fatal"),
    }
    assert_eq!(rest(&c), "x");
}

#[test]
fn require_syntax_reports_end_of_input() {
    let mut c = cur("");
    match require_syntax(',', &mut c) {
        Progress::Fatal(d) => assert_eq!(d, Diag::Expected(',', None)),
        _ => panic!("missing syntax should be fatal"),
    }
}

#[test]
fn require_syntax_present_succeeds() {
    let mut c = cur(", x");
    match require_syntax(',', &mut c) {
        Progress::Parsed(()) => {}
        _ => panic!("the separator is right there"),
    }
    assert_eq!(rest(&c), "x");
}

#[test]
fn list_of_one_element() {
    let mut c = cur("1x");
    match parse_list::<DigitTok>(',', 127, &mut c) {
        Progress::Parsed(v) => {
            assert_eq!(v.len(), 1);
            assert_eq!(v[0].0, "1");
        }
        _ => panic!("a single element is a list"),
    }
    assert_eq!(rest(&c), "x");
}

#[test]
fn list_parses_elements_around_whitespace() {
    let mut c = cur("1, 2 ,3 x");
    match parse_list::<DigitTok>(',', 127, &mut c) {
        Progress::Parsed(v) => {
            let texts: Vec<&str> = v.iter().map(|t| t.0.as_str()).collect();
            assert_eq!(texts, ["1", "2", "3"]);
        }
        _ => panic!("the list should parse"),
    }
    assert_eq!(rest(&c), "x");
}

#[test]
fn list_with_no_first_element_is_absent() {
    let mut c = cur(",");
    match parse_list::<DigitTok>(',', 127, &mut c) {
        Progress::Absent => {}
        _ => panic!("a bare separator is no list"),
    }
    assert_eq!(rest(&c), ",");
}

#[test]
fn list_trailing_separator_is_fatal() {
    let mut c = cur("1,2,");
    match parse_list::<DigitTok>(',', 127, &mut c) {
        Progress::Fatal(d) => assert_eq!(d, Diag::MissingElement),
        _ => panic!("a trailing separator should be fatal"),
    }
}

#[test]
fn list_at_its_maximum_count_succeeds() {
    let mut c = cur("1,2,3 x");
    match parse_list::<DigitTok>(',', 3, &mut c) {
        Progress::Parsed(v) => assert_eq!(v.len(), 3),
        _ => panic!("three elements fit the bound"),
    }
    assert_eq!(rest(&c), "x");
}

#[test]
fn list_separator_past_the_maximum_count_is_fatal() {
    let mut c = cur("1,2,3,4");
    match parse_list::<DigitTok>(',', 3, &mut c) {
        Progress::Fatal(d) => assert_eq!(d, Diag::ListOverflow),
        _ => panic!("a fourth element breaks the bound"),
    }
}

#[test]
fn list_through_the_parse_contract() {
    let mut c = cur("8,9;");
    match maybe::<Vec<DigitTok>>(&mut c) {
        Progress::Parsed(v) => {
            let texts: Vec<&str> = v.iter().map(|t| t.0.as_str()).collect();
            assert_eq!(texts, ["8", "9"]);
        }
        _ => panic!("the list should parse"),
    }
    assert_eq!(rest(&c), ";");
}

#[test]
fn diagnoses_describe_themselves() {
    assert_eq!(
        Diag::IllegalEscape.describe(),
        "tokenizer: illegal escape sequence"
    );
    assert_eq!(
        Diag::TokenOverflow.describe(),
        "tokenizer: exceeded safety margin"
    );
    assert_eq!(
        Diag::ListOverflow.describe(),
        "parse_list: safety margin exceeded"
    );
    assert_eq!(Diag::MissingElement.describe(), "parse error: expected element");
    assert_eq!(
        Diag::Expected(',', None).describe(),
        "parse error: expected syntax character"
    );
}


#[test]
fn ambient_whitespace_covers_the_whole_alphabet() {
    let mut c = cur(
        "\r\u{b}\u{c}\u{85}\u{a0}\u{1680}\u{2000}\u{2005}\u{200a}\u{2028}\u{2029}\u{202f}\u{205f}\u{3000}x",
    );
    skip_ambient(&mut c);
    assert_eq!(rest(&c), "x");
}

#[test]
fn alternation_dispatches_on_the_first_character_rule() {
    // '9' continues an identifier but cannot start one: the dispatch asks
    // the first-character rule, so the fallback is tried and takes the
    // digit.
    let mut c = cur("9x");
    match maybe::<Result<IdentTok, DigitTok>>(&mut c) {
        Progress::Parsed(Err(DigitTok(text))) => assert_eq!(text, "9"),
        _ => panic!("the fallback should take the digit"),
    }
    assert_eq!(rest(&c), "x");

    let mut c = cur("a1 b");
    match maybe::<Result<IdentTok, DigitTok>>(&mut c) {
        Progress::Parsed(Ok(IdentTok(text))) => assert_eq!(text, "a1"),
        _ => panic!("a letter starts an identifier"),
    }
    assert_eq!(rest(&c), "b");
}

#[test]
fn one_character_token_at_a_maximum_length_of_one() {
    // The length bound is only checked when the munch appends a character:
    // a single character followed by a stop still fits a bound of one.
    let mut c = cur("7 x");
    match maybe::<TinyTok>(&mut c) {
        Progress::Parsed(TinyTok(text)) => assert_eq!(text, "7"),
        _ => panic!("one digit fits"),
    }
    assert_eq!(rest(&c), "x");

    let mut c = cur("77");
    match maybe::<TinyTok>(&mut c) {
        Progress::Fatal(d) => assert_eq!(d, Diag::TokenOverflow),
        _ => panic!("two digits reach the bound"),
    }
}

#[test]
fn end_of_parse_only_at_the_end() {
    let c = cur("");
    assert_eq!(end_of_parse(&c), Some(()));
    let c = cur("x");
    assert_eq!(end_of_parse(&c), None);
}
