//! Patterns made of word lists, and how they are looked for in a text.

pub mod compiled;

use vstd::prelude::*;

use crate::pattern::compiled::{compile, Compiled};
use crate::text::{opt_text, texts};
use crate::text::search::has;
use crate::text::words::{join, join_texts};
use crate::unicode::{ascii_lower, is_ascii_alnum, is_ascii_text};

verus! {

/// The characters with a meaning of their own in a pattern.
pub open spec fn is_meta(c: char) -> bool {
    c == '\\' || c == '.' || c == '+' || c == '*' || c == '?' || c == '(' || c == ')' || c == '|'
        || c == '[' || c == ']' || c == '{' || c == '}' || c == '^' || c == '$' || c == '#' || c
        == '&' || c == '-' || c == '~'
}

/// A text with a backslash before every character that has a meaning of its own.
pub open spec fn escaped(s: Seq<char>) -> Seq<char>
    decreases s.len(),
{
    if s.len() == 0 {
        Seq::empty()
    } else if is_meta(s.last()) {
        escaped(s.drop_last()) + seq!['\\', s.last()]
    } else {
        escaped(s.drop_last()) + seq![s.last()]
    }
}

/// `regex::escape` puts a backslash before each character that has a meaning of
/// its own in a pattern, and leaves the others as they are.
pub assume_specification[ regex::escape ](pattern: &str) -> (r: String)
    ensures
        r@ == escaped(pattern@),
;

/// The pattern that stands for any of the words, regardless of case, and only
/// where a word of the text starts and ends.
pub open spec fn alternation(words: Seq<Seq<char>>) -> Seq<char> {
    "(?i)\\b(?:"@ + join(words.map_values(|w: Seq<char>| escaped(w)), "|"@) + ")\\b"@
}

/// The pattern of a word list; an empty list has none.
pub open spec fn pattern_of(words: Seq<Seq<char>>) -> Option<Seq<char>> {
    if words.len() == 0 {
        None
    } else {
        Some(alternation(words))
    }
}

/// Whether every text is made of ASCII characters.
pub open spec fn are_ascii_texts(v: Seq<Seq<char>>) -> bool {
    forall|i: int| 0 <= i < v.len() ==> is_ascii_text(#[trigger] v[i])
}

/// A letter, a digit or an underscore.
pub open spec fn is_word_char(c: char) -> bool {
    is_ascii_alnum(c) || c == '_'
}

/// Whether a run of word characters starts or ends at `i`.
pub open spec fn is_boundary(s: Seq<char>, i: int) -> bool {
    (0 < i && is_word_char(s[i - 1])) != (i < s.len() && is_word_char(s[i]))
}

/// Whether `w` stands at `i`, regardless of case, between two boundaries.
pub open spec fn stands_as_word(s: Seq<char>, w: Seq<char>, i: int) -> bool {
    &&& 0 <= i
    &&& i + w.len() <= s.len()
    &&& forall|k: int|
        0 <= k < w.len() ==> ascii_lower(#[trigger] s[i + k]) == ascii_lower(w[k])
    &&& is_boundary(s, i)
    &&& is_boundary(s, i + w.len())
}

/// Whether one of the words stands in the text, regardless of case, as a word.
/// This is for ASCII texts and words.
pub open spec fn mentions(words: Seq<Seq<char>>, s: Seq<char>) -> bool {
    exists|j: int, i: int| 0 <= j < words.len() && #[trigger] stands_as_word(s, words[j], i)
}

/// The words could not be made into a pattern.
#[derive(Debug, Clone, Copy, PartialEq, Eq, Structural)]
pub struct PatternError;

/// The pattern of a word list.
fn alternation_of(words: &Vec<String>) -> (r: String)
    ensures
        r@ == alternation(texts(words@)),
{
    let mut parts: Vec<String> = Vec::new();
    let ghost f = |w: Seq<char>| escaped(w);
    let mut i: usize = 0;
    while i < words.len()
        invariant
            i <= words.len(),
            f == (|w: Seq<char>| escaped(w)),
            texts(parts@) =~= texts(words@.take(i as int)).map_values(f),
        decreases words.len() - i,
    {
        let ghost before = parts@;
        let e = regex::escape(words[i].as_str());
        parts.push(e);
        proof {
            assert(texts(parts@) =~= texts(before).push(e@));
            assert(texts(words@.take(i + 1)) =~= texts(words@.take(i as int)).push(
                words@[i as int]@,
            ));
        }
        i += 1;
    }
    assert(words@.take(words.len() as int) =~= words@);
    let mut out = "(?i)\\b(?:".to_owned();
    out.append(join_texts(&parts, "|").as_str());
    out.append(")\\b");
    out
}

/// The text of a compiled pattern, if there is one.
pub open spec fn opt_pattern(o: Option<Compiled>) -> Option<Seq<char>> {
    match o {
        Some(c) => Some(c@),
        None => None,
    }
}

/// Compile a word list into one case-insensitive, word-boundary alternation, or
/// `None` when the list is empty. Terms are escaped so punctuation is literal.
pub fn compile_alternation(words: &Vec<String>) -> (r: Result<Option<Compiled>, PatternError>)
    ensures
        words@.len() == 0 ==> r == Ok::<Option<Compiled>, PatternError>(None),
        r matches Ok(p) ==> opt_pattern(p) == pattern_of(texts(words@)),
{
    if words.len() == 0 {
        return Ok(None);
    }
    match compile(alternation_of(words).as_str()) {
        Some(pattern) => Ok(Some(pattern)),
        None => Err(PatternError),
    }
}

// ---------------------------------------------------------------------------
// Marks in a page
// ---------------------------------------------------------------------------

/// The patterns of the marks that job boards leave in a page, each with one group
/// for the company's name there.
pub open spec fn marker_pattern(i: int) -> Seq<char> {
    if i == 0 {
        r"greenhouse\.io/embed/job_board\?for=([a-zA-Z0-9_-]+)"@
    } else if i == 1 {
        r"(?:job-boards|boards)\.greenhouse\.io/([a-zA-Z0-9_-]+)"@
    } else if i == 2 {
        r"jobs\.lever\.co/([a-zA-Z0-9_-]+)"@
    } else if i == 3 {
        r"(?:jobs\.ashbyhq\.com|api\.ashbyhq\.com/posting-api/job-board)/([a-zA-Z0-9_-]+)"@
    } else if i == 4 {
        r"apply\.workable\.com/([a-zA-Z0-9_-]+)"@
    } else if i == 5 {
        r"([a-zA-Z0-9-]+)\.workable\.com"@
    } else {
        r"([a-zA-Z0-9-]+)\.recruitee\.com"@
    }
}

/// Whether a pattern is one of the marks.
pub open spec fn is_marker(pattern: Seq<char>) -> bool {
    exists|i: int| 0 <= i < 7 && pattern == #[trigger] marker_pattern(i)
}

/// Whether a name can be what a mark holds in a page: it stands in the page and is
/// made of letters, digits, dashes and underscores.
pub open spec fn is_marker_group(s: Seq<char>, body: Seq<char>) -> bool {
    &&& s.len() > 0
    &&& has(body, s)
    &&& forall|i: int|
        0 <= i < s.len() ==> is_ascii_alnum(#[trigger] s[i]) || s[i] == '-' || s[i] == '_'
}

/// What the first group of a pattern holds where the pattern is first found.
pub uninterp spec fn regex_group(pattern: Seq<char>, text: Seq<char>) -> Option<Seq<char>>;

/// `regex::Regex::captures` and `Captures::get` for the first group of a mark:
/// what the group holds at the first place where the pattern is found. The groups
/// of the marks are runs of letters, digits, dashes and underscores.
#[verifier::external_body]
fn first_group(pattern: &str, text: &str) -> (r: Option<String>)
    requires
        is_marker(pattern@),
    ensures
        opt_text(r) == regex_group(pattern@, text@),
        r matches Some(s) ==> is_marker_group(s@, text@),
{
    let re = regex::Regex::new(pattern).unwrap();
    match re.captures(text) {
        Some(caps) => Some(caps.get(1).unwrap().as_str().to_owned()),
        None => None,
    }
}

/// What a mark holds in a page.
pub(crate) fn marker_group(i: usize, body: &str) -> (r: Option<String>)
    requires
        i < 7,
    ensures
        opt_text(r) == regex_group(marker_pattern(i as int), body@),
        r matches Some(s) ==> is_marker_group(s@, body@),
{
    let pattern = if i == 0 {
        r"greenhouse\.io/embed/job_board\?for=([a-zA-Z0-9_-]+)"
    } else if i == 1 {
        r"(?:job-boards|boards)\.greenhouse\.io/([a-zA-Z0-9_-]+)"
    } else if i == 2 {
        r"jobs\.lever\.co/([a-zA-Z0-9_-]+)"
    } else if i == 3 {
        r"(?:jobs\.ashbyhq\.com|api\.ashbyhq\.com/posting-api/job-board)/([a-zA-Z0-9_-]+)"
    } else if i == 4 {
        r"apply\.workable\.com/([a-zA-Z0-9_-]+)"
    } else if i == 5 {
        r"([a-zA-Z0-9-]+)\.workable\.com"
    } else {
        r"([a-zA-Z0-9-]+)\.recruitee\.com"
    };
    assert(pattern@ == marker_pattern(i as int));
    first_group(pattern, body)
}

/// The pattern of a word list disregards case, stands for any of the words, and ends at
/// the boundaries of words. An empty list has none.
pub proof fn word_lists_become_patterns(words: Seq<Seq<char>>)
    ensures
        words.len() == 0 ==> pattern_of(words) is None,
        words.len() > 0 ==> pattern_of(words) == Some(
            "(?i)\\b(?:"@ + join(words.map_values(|w: Seq<char>| escaped(w)), "|"@) + ")\\b"@,
        ),
{
}

/// A word of a list is mentioned where it stands, in whatever case, with nothing that
/// belongs to a word around it.
pub proof fn words_are_mentioned_where_they_stand(
    words: Seq<Seq<char>>,
    j: int,
    a: Seq<char>,
    w: Seq<char>,
    b: Seq<char>,
)
    requires
        0 <= j < words.len(),
        w.len() == words[j].len(),
        w.len() > 0,
        forall|k: int|
            0 <= k < w.len() ==> ascii_lower(#[trigger] w[k]) == ascii_lower(words[j][k]),
        is_ascii_alnum(w[0]),
        is_ascii_alnum(w.last()),
        a.len() > 0 ==> !is_ascii_alnum(a.last()) && a.last() != '_',
        b.len() > 0 ==> !is_ascii_alnum(b[0]) && b[0] != '_',
    ensures
        mentions(words, a + w + b),
{
    let s = a + w + b;
    let i = a.len() as int;
    assert(s[i] == w[0]);
    assert(s[i + w.len() - 1] == w.last());
    if a.len() > 0 {
        assert(s[i - 1] == a.last());
    }
    if b.len() > 0 {
        assert(s[i + w.len()] == b[0]);
    }
    assert forall|k: int| 0 <= k < words[j].len() implies ascii_lower(#[trigger] s[i + k])
        == ascii_lower(words[j][k]) by {
        assert(s[i + k] == w[k]);
    }
    assert(stands_as_word(s, words[j], i));
}

/// A word that is only a piece of the words of a text is not mentioned: wherever it
/// stands, a further letter or digit is next to it.
pub proof fn pieces_of_words_are_not_mentioned(w: Seq<char>, s: Seq<char>)
    requires
        w.len() > 0,
        is_ascii_alnum(w[0]),
        is_ascii_alnum(w.last()),
        forall|i: int|
            0 <= i && i + w.len() <= s.len() && (forall|k: int|
                0 <= k < w.len() ==> ascii_lower(s[i + k]) == ascii_lower(#[trigger] w[k])) ==> (0
                < i && is_ascii_alnum(#[trigger] s[i - 1])) || (i + w.len() < s.len()
                && is_ascii_alnum(s[i + w.len()])),
    ensures
        !mentions(seq![w], s),
{
    let words = seq![w];
    if mentions(words, s) {
        let (j, i) = choose|j: int, i: int|
            0 <= j < words.len() && #[trigger] stands_as_word(s, words[j], i);
        assert(words[j] == w);
        assert forall|k: int| 0 <= k < w.len() implies ascii_lower(s[i + k]) == ascii_lower(
            #[trigger] w[k],
        ) by {
            assert(ascii_lower(s[i + k]) == ascii_lower(w[k]));
        }
        assert(ascii_lower(s[i + 0]) == ascii_lower(w[0]));
        assert(is_ascii_alnum(s[i]));
        let n = w.len() as int;
        assert(ascii_lower(s[i + (n - 1)]) == ascii_lower(w[n - 1]));
        assert(is_ascii_alnum(s[i + n - 1]));
        assert(0 < i ==> !is_ascii_alnum(s[i - 1]));
    }
}

/// The characters that mean something in a pattern are escaped by a backslash, and no
/// others.
pub proof fn special_characters_are_escaped(s: Seq<char>, c: char)
    ensures
        seq![
            '\\',
            '.',
            '+',
            '*',
            '?',
            '(',
            ')',
            '|',
            '[',
            ']',
            '{',
            '}',
            '^',
            '$',
            '#',
            '&',
            '-',
            '~',
        ].contains(c) ==> escaped(s.push(c)) == escaped(s) + seq!['\\', c],
        !(seq![
            '\\',
            '.',
            '+',
            '*',
            '?',
            '(',
            ')',
            '|',
            '[',
            ']',
            '{',
            '}',
            '^',
            '$',
            '#',
            '&',
            '-',
            '~',
        ].contains(c)) ==> escaped(s.push(c)) == escaped(s).push(c),
{
    let special = seq![
        '\\',
        '.',
        '+',
        '*',
        '?',
        '(',
        ')',
        '|',
        '[',
        ']',
        '{',
        '}',
        '^',
        '$',
        '#',
        '&',
        '-',
        '~',
    ];
    assert(s.push(c).drop_last() =~= s);
    assert(escaped(s) + seq![c] =~= escaped(s).push(c));
    assert(special[0] == '\\' && special[1] == '.' && special[2] == '+' && special[3] == '*');
    assert(special[4] == '?' && special[5] == '(' && special[6] == ')' && special[7] == '|');
    assert(special[8] == '[' && special[9] == ']' && special[10] == '{' && special[11] == '}');
    assert(special[12] == '^' && special[13] == '$' && special[14] == '#' && special[15] == '&');
    assert(special[16] == '-' && special[17] == '~');
}

/// A word is bounded where a letter, a digit or an underscore stands next to something
/// else, and at the ends of the text.
pub proof fn words_end_where_others_start(s: Seq<char>, i: int)
    requires
        0 <= i <= s.len(),
    ensures
        ({
            let before = i > 0 && (is_ascii_alnum(s[i - 1]) || s[i - 1] == '_');
            let after = i < s.len() && (is_ascii_alnum(s[i]) || s[i] == '_');
            is_boundary(s, i) <==> before != after
        }),
{
}

} // verus!
