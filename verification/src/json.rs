//! JSON text of a list of strings.

use vstd::prelude::*;

use crate::text::{opt_text, texts};
use crate::text::words::join;

verus! {

/// A hexadecimal digit, in lower case.
pub open spec fn hex_digit(d: nat) -> char {
    if d < 10 {
        (d + 48) as char
    } else {
        (d + 87) as char
    }
}

/// A character inside a JSON string: quotes, backslashes and control characters
/// are escaped, anything else stands for itself.
pub open spec fn json_char(c: char) -> Seq<char> {
    if c == '"' || c == '\\' {
        seq!['\\', c]
    } else if c == '\u{8}' {
        seq!['\\', 'b']
    } else if c == '\t' {
        seq!['\\', 't']
    } else if c == '\n' {
        seq!['\\', 'n']
    } else if c == '\u{c}' {
        seq!['\\', 'f']
    } else if c == '\r' {
        seq!['\\', 'r']
    } else if c as u32 <= 31 {
        seq![
            '\\',
            'u',
            '0',
            '0',
            hex_digit(c as nat / 16),
            hex_digit(c as nat % 16),
        ]
    } else {
        seq![c]
    }
}

/// The characters of a JSON string, one after the other.
pub open spec fn json_chars(s: Seq<char>) -> Seq<char>
    decreases s.len(),
{
    if s.len() == 0 {
        Seq::empty()
    } else {
        json_chars(s.drop_last()) + json_char(s.last())
    }
}

/// A JSON string.
pub open spec fn json_string(s: Seq<char>) -> Seq<char> {
    seq!['"'] + json_chars(s) + seq!['"']
}

/// A JSON array of strings, without spaces.
pub open spec fn json_strings(v: Seq<Seq<char>>) -> Seq<char> {
    seq!['['] + join(v.map_values(|s: Seq<char>| json_string(s)), seq![',']) + seq![']']
}

/// `serde_json::to_string` of a list of strings: a JSON array without spaces,
/// each string in quotes with the characters escaped that JSON wants escaped. A
/// list of strings always serialises.
#[verifier::external_body]
pub(crate) fn strings_to_json(v: &[String]) -> (r: Option<String>)
    ensures
        opt_text(r) == Some(json_strings(texts(v@))),
{
    serde_json::to_string(v).ok()
}

} // verus!
