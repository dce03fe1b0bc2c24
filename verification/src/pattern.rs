//! Compiled timestamp patterns.
//!
//! This module is the only place that touches the `regex` crate. A [`Pattern`]
//! keeps the source text of a regular expression next to its compiled program;
//! the fields are private and [`Pattern::compile`] is the only constructor, so
//! the program of a `Pattern` is always the one `Regex::new` built from its
//! source. What the compiler and the matcher answer is not modelled here: each
//! answer is given a name, and the rest of the crate is proved against the
//! names.

use regex::Regex;
use vstd::prelude::*;

verus! {

/// The compiled program of the `regex` crate, carried as an opaque value.
#[verifier::external_type_specification]
#[verifier::external_body]
pub struct ExRegex(Regex);

/// Whether `Regex::new` accepts `source`: the expression is valid, and its
/// compiled program is no bigger than the size limit that `Regex::new` sets.
pub uninterp spec fn pattern_compiles(source: Seq<char>) -> bool;

/// Whether the regular expression `source` matches somewhere in `text`, as
/// `Regex::is_match` answers for a program compiled from `source` by
/// `Regex::new`.
pub uninterp spec fn matches_anywhere(source: Seq<char>, text: Seq<char>) -> bool;

/// The text that the capture group called `name` matched in the leftmost
/// match of `source` in `text`, as `Regex::captures` followed by
/// `Captures::name` reports it; `None` where there is no match, no group of
/// that name, or the group took no part in the match.
pub uninterp spec fn group_text(source: Seq<char>, text: Seq<char>, name: Seq<char>) -> Option<
    Seq<char>,
>;

/// A regular expression together with its compiled program.
#[derive(Debug)]
pub struct Pattern {
    source: String,
    program: Regex,
}

impl View for Pattern {
    type V = Seq<char>;

    /// A pattern is viewed as its source text.
    closed spec fn view(&self) -> Seq<char> {
        self.source@
    }
}

impl Pattern {
    /// Compiles `source` with `Regex::new`. `None` means that the crate
    /// rejected the expression (bad syntax, or a program over its size limit):
    /// that depends on the expression alone.
    #[verifier::external_body]
    pub(crate) fn compile(source: &str) -> (r: Option<Pattern>)
        ensures
            r is Some <==> pattern_compiles(source@),
            r matches Some(p) ==> p@ == source@,
    {
        match Regex::new(source) {
            Ok(program) => Some(Pattern { source: source.to_string(), program }),
            Err(_) => None,
        }
    }

    /// The source text that the pattern was compiled from.
    pub fn source(&self) -> (s: &str)
        ensures
            s@ == self@,
    {
        self.source.as_str()
    }

    /// `Regex::is_match`: true if and only if the expression matches anywhere
    /// in `text`.
    #[verifier::external_body]
    pub(crate) fn is_match(&self, text: &str) -> (b: bool)
        ensures
            b == matches_anywhere(self@, text@),
    {
        self.program.is_match(text)
    }

    /// `Regex::captures` and `Captures::name`: the text of the group `name`
    /// in the leftmost match, copied out of `text`.
    #[verifier::external_body]
    pub(crate) fn group(&self, text: &str, name: &str) -> (r: Option<String>)
        ensures
            match r {
                Some(s) => group_text(self@, text@, name@) == Some(s@),
                None => group_text(self@, text@, name@) is None,
            },
    {
        self.program.captures(text).and_then(|caps| caps.name(name)).map(|m| m.as_str().to_string())
    }
}

} // verus!
