//! A minimal recursive-descent parsing toolkit.
//!
//! The toolkit turns a single-pass character cursor into typed values through
//! a handful of composable primitives: a one-character lookahead that either
//! commits to a character or consumes nothing, ambient and mandatory
//! whitespace handling, a uniform [`parse::Parse`] contract with optional
//! ([`parse::maybe`]) and mandatory ([`parse::require`]) call forms,
//! single-character syntax helpers, a maximal-munch tokenizer with escaping
//! and a length bound, a two-way alternation, and separator-delimited list
//! parsing with an element-count bound.
//!
//! Failure is two-tiered: an *absent* result consumes nothing and lets the
//! caller try an alternative, while malformed input and safety-margin
//! overruns surface as a *fatal* diagnostic ([`outcome::Diag`]) that a caller
//! is expected to treat as the end of the parse.

pub mod alt;
pub mod cursor;
pub mod list;
pub mod lookahead;
pub mod outcome;
pub mod parse;
pub mod syntax;
pub mod token;
pub mod whitespace;

pub use cursor::Cursor;
pub use list::{parse_list, Many};
pub use lookahead::{accept_if, CharIs, CharPred};
pub use outcome::{Diag, Progress, SpecProgress};
pub use parse::{end_of_parse, maybe, require, Parse};
pub use syntax::{maybe_syntax, require_syntax};
pub use token::Token;
pub use whitespace::Whitespace;
