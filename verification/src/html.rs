//! Decoding of HTML character references.

use vstd::prelude::*;

verus! {

/// A text with its HTML character references replaced by what they stand for.
pub uninterp spec fn html_decoded(s: Seq<char>) -> Seq<char>;

/// `html_escape::decode_html_entities` replaces the character references
/// (`&amp;`, `&#39;`, `&#x27;` and so on) of a text. Every reference starts with
/// an ampersand, so a text without one comes back as it is.
#[verifier::external_body]
pub(crate) fn decode_entities(s: &str) -> (r: String)
    ensures
        r@ == html_decoded(s@),
        !s@.contains('&') ==> r@ == s@,
{
    html_escape::decode_html_entities(s).into_owned()
}

/// A text with its HTML character references decoded. One without an ampersand has
/// none, and stays as it is.
pub open spec fn decoded(s: Seq<char>) -> Seq<char> {
    if s.contains('&') {
        html_decoded(s)
    } else {
        s
    }
}

} // verus!
