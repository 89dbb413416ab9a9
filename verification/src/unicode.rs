//! Case mappings of the Unicode standard, as the standard library has them.

use vstd::prelude::*;

verus! {

/// A text in lower case, by the Unicode mappings.
pub uninterp spec fn lowercased(s: Seq<char>) -> Seq<char>;

/// Whether every character is an ASCII character.
pub open spec fn is_ascii_text(s: Seq<char>) -> bool {
    forall|i: int| 0 <= i < s.len() ==> (#[trigger] s[i]) < '\u{80}'
}

/// A text with its ASCII capital letters in lower case.
pub open spec fn ascii_lowered(s: Seq<char>) -> Seq<char> {
    s.map_values(|c: char| ascii_lower(c))
}

/// `str::to_lowercase` is the Unicode lower-case mapping of the text, which in an
/// ASCII text maps the capital letters alone. Nothing further is said of the
/// mapping itself.
pub assume_specification[ str::to_lowercase ](s: &str) -> (r: String)
    ensures
        r@ == lowercased(s@),
        is_ascii_text(s@) ==> r@ == ascii_lowered(s@),
;

/// A text in lower case: in an ASCII text the capital letters alone change.
pub open spec fn lower_of(s: Seq<char>) -> Seq<char> {
    if is_ascii_text(s) {
        ascii_lowered(s)
    } else {
        lowercased(s)
    }
}

/// A character in upper case, by the Unicode mappings. Some characters map to
/// several.
pub uninterp spec fn char_uppercased(c: char) -> Seq<char>;

/// An ASCII small letter in upper case; any other character as it is.
pub open spec fn ascii_upper(c: char) -> char {
    if 'a' <= c <= 'z' {
        (c as u32 - 32) as char
    } else {
        c
    }
}

/// `char::to_uppercase` yields the Unicode upper-case mapping of the character,
/// which of an ASCII character is its capital where it is a small letter, and else
/// the character itself. Nothing further is said of the mapping itself.
#[verifier::external_body]
pub(crate) fn upper(c: char) -> (r: String)
    ensures
        r@ == char_uppercased(c),
        c < '\u{80}' ==> r@ == seq![ascii_upper(c)],
{
    c.to_uppercase().to_string()
}

/// A character in upper case: of ASCII characters the small letters alone change.
pub open spec fn upper_of(c: char) -> Seq<char> {
    if c as u32 <= 127 {
        seq![ascii_upper(c)]
    } else {
        char_uppercased(c)
    }
}

/// An ASCII capital letter in lower case; any other character as it is.
pub open spec fn ascii_lower(c: char) -> char {
    if 'A' <= c <= 'Z' {
        (c as u32 + 32) as char
    } else {
        c
    }
}

/// Whether `c` is an ASCII letter or digit.
pub open spec fn is_ascii_alnum(c: char) -> bool {
    'a' <= c <= 'z' || 'A' <= c <= 'Z' || '0' <= c <= '9'
}

/// An ASCII capital letter in lower case; any other character as it is.
pub fn lower_ascii(c: char) -> (r: char)
    ensures
        r == ascii_lower(c),
{
    if 'A' <= c && c <= 'Z' {
        let n: u8 = (c as u32) as u8;
        (n + 32) as char
    } else {
        c
    }
}

/// Whether `c` is an ASCII letter or digit.
pub fn ascii_alnum(c: char) -> (r: bool)
    ensures
        r == is_ascii_alnum(c),
{
    ('a' <= c && c <= 'z') || ('A' <= c && c <= 'Z') || ('0' <= c && c <= '9')
}

/// In lower case an ASCII text keeps its length, its capital letters become small ones
/// and everything else stays. In upper case a small letter becomes a capital one.
pub proof fn ascii_letters_change_case(s: Seq<char>, i: int, c: char)
    ensures
        is_ascii_text(s) ==> lower_of(s).len() == s.len(),
        is_ascii_text(s) && 0 <= i < s.len() && 'A' <= s[i] <= 'Z' ==> lower_of(s)[i] as int
            == s[i] as int + 32,
        is_ascii_text(s) && 0 <= i < s.len() && !('A' <= s[i] <= 'Z') ==> lower_of(s)[i] == s[i],
        'a' <= c <= 'z' ==> upper_of(c).len() == 1 && upper_of(c)[0] as int == c as int - 32,
        c < '\u{80}' && !('a' <= c <= 'z') ==> upper_of(c) == seq![c],
{
}

/// Letters and digits are those of ASCII.
pub proof fn alphanumerics_are_letters_and_digits(c: char)
    ensures
        is_ascii_alnum(c) <==> ('a' <= c <= 'z') || ('A' <= c <= 'Z') || ('0' <= c <= '9'),
        'A' <= c <= 'Z' ==> ascii_lower(c) as int == c as int + 32,
        !('A' <= c <= 'Z') ==> ascii_lower(c) == c,
{
}

} // verus!
