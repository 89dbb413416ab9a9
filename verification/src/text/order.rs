//! Lexicographic order of texts, by the characters' code points.

use vstd::prelude::*;

use crate::text::chars_of;

verus! {

/// Whether `a` comes before `b` or equals it.
pub open spec fn text_le(a: Seq<char>, b: Seq<char>) -> bool
    decreases a.len(),
{
    if a.len() == 0 {
        true
    } else if b.len() == 0 {
        false
    } else if a[0] != b[0] {
        a[0] < b[0]
    } else {
        text_le(a.drop_first(), b.drop_first())
    }
}

/// Whether `a` comes strictly before `b`.
pub open spec fn text_lt(a: Seq<char>, b: Seq<char>) -> bool {
    !text_le(b, a)
}

/// Of two texts one comes before the other or equals it.
pub proof fn text_le_is_total(a: Seq<char>, b: Seq<char>)
    ensures
        text_le(a, b) || text_le(b, a),
        text_le(a, a),
    decreases a.len(),
{
    if a.len() > 0 && b.len() > 0 && a[0] == b[0] {
        text_le_is_total(a.drop_first(), b.drop_first());
    } else if a.len() > 0 {
        text_le_is_total(a.drop_first(), a.drop_first());
    }
}

/// The order is transitive.
pub proof fn text_le_is_transitive(a: Seq<char>, b: Seq<char>, c: Seq<char>)
    requires
        text_le(a, b),
        text_le(b, c),
    ensures
        text_le(a, c),
    decreases a.len(),
{
    if a.len() > 0 && b.len() > 0 && c.len() > 0 && a[0] == b[0] && b[0] == c[0] {
        text_le_is_transitive(a.drop_first(), b.drop_first(), c.drop_first());
    }
}

/// Texts that come before one another are equal.
pub proof fn text_le_is_antisymmetric(a: Seq<char>, b: Seq<char>)
    requires
        text_le(a, b),
        text_le(b, a),
    ensures
        a == b,
    decreases a.len(),
{
    if a.len() == 0 {
        assert(a =~= b);
    } else {
        text_le_is_antisymmetric(a.drop_first(), b.drop_first());
        assert(a =~= seq![a[0]] + a.drop_first());
        assert(b =~= seq![b[0]] + b.drop_first());
    }
}

/// Whether `a` comes before `b` or equals it.
pub fn le_text(a: &str, b: &str) -> (r: bool)
    ensures
        r == text_le(a@, b@),
{
    let v = chars_of(a);
    let w = chars_of(b);
    let mut i: usize = 0;
    assert(v@.skip(0) =~= v@);
    assert(w@.skip(0) =~= w@);
    while i < v.len() && i < w.len()
        invariant
            i <= v.len(),
            i <= w.len(),
            v@ == a@,
            w@ == b@,
            text_le(v@, w@) == text_le(v@.skip(i as int), w@.skip(i as int)),
        decreases v.len() - i,
    {
        if v[i] != w[i] {
            return v[i] < w[i];
        }
        assert(v@.skip(i as int).drop_first() =~= v@.skip(i + 1));
        assert(w@.skip(i as int).drop_first() =~= w@.skip(i + 1));
        i += 1;
    }
    i == v.len()
}

/// Whether `a` comes strictly before `b`.
pub fn lt_text(a: &str, b: &str) -> (r: bool)
    ensures
        r == text_lt(a@, b@),
{
    !le_text(b, a)
}

/// Texts are ordered by the first character in which they differ, and a text comes before
/// every longer one that starts with it.
pub proof fn the_first_difference_decides(
    p: Seq<char>,
    x: char,
    a: Seq<char>,
    y: char,
    b: Seq<char>,
)
    ensures
        x != y ==> (text_le(p + seq![x] + a, p + seq![y] + b) <==> x < y),
        text_le(p, p + a),
        a.len() > 0 ==> !text_le(p + a, p),
        text_lt(p, p + a) <==> a.len() > 0,
    decreases p.len(),
{
    let s = p + seq![x] + a;
    let t = p + seq![y] + b;
    if p.len() == 0 {
        assert(s[0] == x && t[0] == y);
        assert(p + a =~= a);
    } else {
        let d = p.drop_first();
        the_first_difference_decides(d, x, a, y, b);
        assert(s.drop_first() =~= d + seq![x] + a);
        assert(t.drop_first() =~= d + seq![y] + b);
        assert(s[0] == p[0] && t[0] == p[0]);
        assert((p + a).drop_first() =~= d + a);
        assert((p + a)[0] == p[0]);
    }
}

} // verus!
