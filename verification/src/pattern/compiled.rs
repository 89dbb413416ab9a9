//! A pattern that has been compiled, kept together with its text.

use vstd::prelude::*;

use crate::pattern::{alternation, are_ascii_texts, mentions};
use crate::unicode::is_ascii_text;

verus! {

/// `regex::Regex`, a compiled pattern. Nothing is said of what is inside.
#[verifier::external_type_specification]
#[verifier::external_body]
pub struct ExRegex(regex::Regex);

/// A compiled pattern and the text that it was compiled from. The fields are
/// private to this module and only `compile` sets them, so they belong together.
/// The view is the text.
#[derive(Debug)]
pub struct Compiled {
    regex: regex::Regex,
    text: String,
}

impl View for Compiled {
    type V = Seq<char>;

    closed spec fn view(&self) -> Seq<char> {
        self.text@
    }
}

impl Compiled {
    /// The text of the pattern.
    pub fn text(&self) -> (r: &str)
        ensures
            r@ == self@,
    {
        self.text.as_str()
    }
}

/// `regex::Regex::new` compiles a pattern, which is kept with its text. It refuses
/// what is no pattern, and also what is too large once compiled; the latter differs
/// between machines, so nothing is said of when it refuses.
#[verifier::external_body]
pub(crate) fn compile(pattern: &str) -> (r: Option<Compiled>)
    ensures
        r matches Some(c) ==> c@ == pattern@,
{
    match regex::Regex::new(pattern) {
        Ok(regex) => Some(Compiled { regex, text: pattern.to_owned() }),
        Err(_) => None,
    }
}

/// Whether a pattern is found anywhere in a text.
pub uninterp spec fn regex_found(pattern: Seq<char>, text: Seq<char>) -> bool;

/// `regex::Regex::is_match` tells whether the pattern is found anywhere in the text.
/// Of the pattern of an ASCII word list and an ASCII text it is said what is found:
/// `(?i)` disregards case, `\b` is a boundary of a word, `|` separates alternatives,
/// and an escaped character stands for itself.
#[verifier::external_body]
pub(crate) fn found_in(pattern: &Compiled, text: &str) -> (r: bool)
    ensures
        r == regex_found(pattern@, text@),
        forall|words: Seq<Seq<char>>|
            pattern@ == #[trigger] alternation(words) && words.len() > 0 && are_ascii_texts(words)
                && is_ascii_text(text@) ==> r == mentions(words, text@),
{
    pattern.regex.is_match(text)
}

} // verus!
