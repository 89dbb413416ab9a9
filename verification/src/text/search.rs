//! Finding characters and substrings.

use vstd::prelude::*;

use crate::text::{chars_of, range_of, string_of};

verus! {

/// Whether `pat` stands in `s` at position `i`.
pub open spec fn occurs_at(s: Seq<char>, pat: Seq<char>, i: int) -> bool {
    0 <= i && i + pat.len() <= s.len() && s.subrange(i, i + pat.len()) == pat
}

/// Whether `pat` stands anywhere in `s`.
pub open spec fn has(s: Seq<char>, pat: Seq<char>) -> bool {
    exists|i: int| #[trigger] occurs_at(s, pat, i)
}

/// Whether `s` begins with `pat`.
pub open spec fn begins(s: Seq<char>, pat: Seq<char>) -> bool {
    occurs_at(s, pat, 0)
}

/// Whether `s` ends with `pat`.
pub open spec fn ends(s: Seq<char>, pat: Seq<char>) -> bool {
    occurs_at(s, pat, s.len() - pat.len())
}

/// The position of the first `c` in `s`.
pub open spec fn find(s: Seq<char>, c: char) -> Option<int>
    decreases s.len(),
{
    if s.len() == 0 {
        None
    } else if s[0] == c {
        Some(0)
    } else {
        match find(s.drop_first(), c) {
            Some(i) => Some(i + 1),
            None => None,
        }
    }
}

/// The position of the last `c` in `s`.
pub open spec fn rfind(s: Seq<char>, c: char) -> Option<int>
    decreases s.len(),
{
    if s.len() == 0 {
        None
    } else if s.last() == c {
        Some(s.len() - 1)
    } else {
        rfind(s.drop_last(), c)
    }
}

/// The text before and the text after the first `c`.
pub open spec fn cut(s: Seq<char>, c: char) -> Option<(Seq<char>, Seq<char>)> {
    match find(s, c) {
        Some(i) => Some((s.take(i), s.skip(i + 1))),
        None => None,
    }
}

/// `find` gives the least position that holds the character.
pub proof fn lemma_find(s: Seq<char>, c: char)
    ensures
        find(s, c) matches Some(i) ==> 0 <= i < s.len() && s[i] == c && (forall|j: int|
            0 <= j < i ==> #[trigger] s[j] != c),
        find(s, c) is None ==> !s.contains(c),
    decreases s.len(),
{
    if s.len() > 0 && s[0] != c {
        let d = s.drop_first();
        lemma_find(d, c);
        match find(d, c) {
            Some(i) => {
                assert forall|j: int| 0 <= j < i + 1 implies #[trigger] s[j] != c by {
                    if j > 0 {
                        assert(d[j - 1] == s[j]);
                    }
                }
            },
            None => {
                if s.contains(c) {
                    let j = choose|j: int| 0 <= j < s.len() && s[j] == c;
                    assert(d[j - 1] == c);
                    assert(d.contains(c));
                }
            },
        }
    }
}

/// `rfind` gives the greatest position that holds the character.
pub proof fn lemma_rfind(s: Seq<char>, c: char)
    ensures
        rfind(s, c) matches Some(i) ==> 0 <= i < s.len() && s[i] == c && (forall|j: int|
            i < j < s.len() ==> #[trigger] s[j] != c),
        rfind(s, c) is None ==> !s.contains(c),
    decreases s.len(),
{
    if s.len() > 0 && s.last() != c {
        let d = s.drop_last();
        lemma_rfind(d, c);
        match rfind(d, c) {
            Some(i) => {
                assert forall|j: int| i < j < s.len() implies #[trigger] s[j] != c by {
                    if j < d.len() {
                        assert(d[j] == s[j]);
                    }
                }
            },
            None => {
                if s.contains(c) {
                    let j = choose|j: int| 0 <= j < s.len() && s[j] == c;
                    assert(d[j] == c);
                    assert(d.contains(c));
                }
            },
        }
    }
}

/// The position of the first `c`.
pub fn find_char(v: &[char], c: char) -> (r: Option<usize>)
    ensures
        match r {
            Some(i) => find(v@, c) == Some(i as int) && i < v.len(),
            None => find(v@, c) is None,
        },
{
    proof {
        lemma_find(v@, c);
    }
    let mut i: usize = 0;
    while i < v.len()
        invariant
            i <= v.len(),
            forall|j: int| 0 <= j < i ==> #[trigger] v@[j] != c,
        decreases v.len() - i,
    {
        if v[i] == c {
            proof {
                lemma_find(v@, c);
                assert(v@.contains(c));
                let k = find(v@, c)->0;
                if k > i {
                    assert(v@[i as int] != c);
                }
            }
            return Some(i);
        }
        i += 1;
    }
    None
}

/// The position of the last `c`.
pub fn rfind_char(v: &[char], c: char) -> (r: Option<usize>)
    ensures
        match r {
            Some(i) => rfind(v@, c) == Some(i as int) && i < v.len(),
            None => rfind(v@, c) is None,
        },
{
    let mut i: usize = v.len();
    assert(v@.take(v.len() as int) =~= v@);
    while i > 0
        invariant
            i <= v.len(),
            rfind(v@, c) == rfind(v@.take(i as int), c),
        decreases i,
    {
        if v[i - 1] == c {
            return Some(i - 1);
        }
        assert(v@.take(i as int).drop_last() =~= v@.take(i - 1));
        i -= 1;
    }
    None
}

/// Whether `p` stands in `v` at position `i`.
pub fn stands_at(v: &[char], p: &[char], i: usize) -> (r: bool)
    ensures
        r == occurs_at(v@, p@, i as int),
{
    if v.len() < p.len() || i > v.len() - p.len() {
        return false;
    }
    let mut k: usize = 0;
    while k < p.len()
        invariant
            k <= p.len(),
            i + p.len() <= v.len(),
            forall|j: int| 0 <= j < k ==> v@[i + j] == #[trigger] p@[j],
        decreases p.len() - k,
    {
        if v[i + k] != p[k] {
            assert(v@.subrange(i as int, i + p.len())[k as int] != p@[k as int]);
            return false;
        }
        k += 1;
    }
    assert(v@.subrange(i as int, i + p.len()) =~= p@);
    true
}

/// Whether `pat` stands anywhere in `s`.
pub fn contains_text(s: &str, pat: &str) -> (r: bool)
    ensures
        r == has(s@, pat@),
{
    let v = chars_of(s);
    let p = chars_of(pat);
    let mut i: usize = 0;
    while i < v.len()
        invariant
            i <= v.len(),
            v@ == s@,
            p@ == pat@,
            forall|j: int| 0 <= j < i ==> !#[trigger] occurs_at(s@, pat@, j),
        decreases v.len() - i,
    {
        if stands_at(v.as_slice(), p.as_slice(), i) {
            return true;
        }
        i += 1;
    }
    let at_end = stands_at(v.as_slice(), p.as_slice(), i);
    proof {
        if !at_end {
            assert forall|j: int| !#[trigger] occurs_at(s@, pat@, j) by {}
        }
    }
    at_end
}

/// Whether `s` begins with `pat`.
pub fn begins_with(s: &str, pat: &str) -> (r: bool)
    ensures
        r == begins(s@, pat@),
{
    let v = chars_of(s);
    let p = chars_of(pat);
    stands_at(v.as_slice(), p.as_slice(), 0)
}

/// Whether `s` ends with `pat`.
pub fn ends_with(s: &str, pat: &str) -> (r: bool)
    ensures
        r == ends(s@, pat@),
{
    let v = chars_of(s);
    let p = chars_of(pat);
    if v.len() < p.len() {
        return false;
    }
    stands_at(v.as_slice(), p.as_slice(), v.len() - p.len())
}

/// Whether a text holds the character.
pub fn contains_char(s: &str, c: char) -> (r: bool)
    ensures
        r == s@.contains(c),
{
    let v = chars_of(s);
    proof {
        lemma_find(v@, c);
    }
    match find_char(v.as_slice(), c) {
        Some(_) => true,
        None => false,
    }
}

/// The text before and the text after the first `c`.
pub fn cut_at(s: &str, c: char) -> (r: Option<(String, String)>)
    ensures
        match r {
            Some((a, b)) => cut(s@, c) == Some((a@, b@)),
            None => cut(s@, c) is None,
        },
{
    let v = chars_of(s);
    match find_char(v.as_slice(), c) {
        Some(i) => {
            let a = range_of(v.as_slice(), 0, i);
            let b = range_of(v.as_slice(), i + 1, v.len());
            assert(a@ =~= s@.take(i as int));
            assert(b@ =~= s@.skip(i + 1));
            Some((string_of(a.as_slice()), string_of(b.as_slice())))
        },
        None => None,
    }
}

/// A text is cut at the first place where the character stands, and not at all where it
/// does not.
pub proof fn texts_are_cut_at_the_first_place(a: Seq<char>, c: char, b: Seq<char>)
    requires
        !a.contains(c),
    ensures
        cut(a + seq![c] + b, c) == Some((a, b)),
        cut(a, c) is None,
        find(a + seq![c] + b, c) == Some(a.len() as int),
{
    let s = a + seq![c] + b;
    lemma_find(s, c);
    lemma_find(a, c);
    assert(s[a.len() as int] == c);
    match find(s, c) {
        Some(i) => {
            if i < a.len() {
                assert(a[i] == c);
                assert(a.contains(c));
            } else if i > a.len() {
                assert(s[a.len() as int] != c);
            }
            assert(s.take(i) =~= a);
            assert(s.skip(i + 1) =~= b);
        },
        None => {
            assert(s.contains(s[a.len() as int]));
        },
    }
    match find(a, c) {
        Some(i) => {
            assert(a.contains(a[i]));
        },
        None => {},
    }
}

/// A text stands in another exactly when that is the text with something around it.
pub proof fn texts_stand_in_what_is_around_them(s: Seq<char>, pat: Seq<char>)
    ensures
        has(s, pat) <==> exists|a: Seq<char>, b: Seq<char>| s == #[trigger] (a + pat + b),
        begins(s, pat) <==> exists|b: Seq<char>| s == #[trigger] (pat + b),
        ends(s, pat) <==> exists|a: Seq<char>| s == #[trigger] (a + pat),
{
    if has(s, pat) {
        let i = choose|i: int| #[trigger] occurs_at(s, pat, i);
        assert(s =~= s.take(i) + pat + s.skip(i + pat.len()));
    }
    if exists|a: Seq<char>, b: Seq<char>| s == #[trigger] (a + pat + b) {
        let (a, b) = choose|a: Seq<char>, b: Seq<char>| s == #[trigger] (a + pat + b);
        assert(s.subrange(a.len() as int, (a.len() + pat.len()) as int) =~= pat);
        assert(occurs_at(s, pat, a.len() as int));
    }
    if begins(s, pat) {
        assert(s =~= pat + s.skip(pat.len() as int));
    }
    if exists|b: Seq<char>| s == #[trigger] (pat + b) {
        assert(s.subrange(0, pat.len() as int) =~= pat);
    }
    if ends(s, pat) {
        assert(s =~= s.take(s.len() - pat.len()) + pat);
    }
    if exists|a: Seq<char>| s == #[trigger] (a + pat) {
        assert(s.subrange(s.len() - pat.len(), s.len() as int) =~= pat);
    }
}

} // verus!
