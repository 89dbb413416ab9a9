//! Splitting a text into words or fields, and joining them again.

use vstd::prelude::*;

use crate::text::{chars_of, is_blank, is_space, is_whitespace, texts};

verus! {

/// The maximal runs of characters other than whitespace, in order.
pub open spec fn words(s: Seq<char>) -> Seq<Seq<char>>
    decreases s.len(),
{
    if s.len() == 0 {
        Seq::empty()
    } else {
        let before = words(s.drop_last());
        let c = s.last();
        if is_space(c) {
            before
        } else if s.len() == 1 || is_space(s[s.len() - 2]) {
            before.push(seq![c])
        } else {
            before.drop_last().push(before.last().push(c))
        }
    }
}

/// The fields of `s` between occurrences of `sep`, in order.
pub open spec fn split(s: Seq<char>, sep: char) -> Seq<Seq<char>>
    decreases s.len(),
{
    if s.len() == 0 {
        seq![Seq::empty()]
    } else {
        let before = split(s.drop_last(), sep);
        if s.last() == sep {
            before.push(Seq::empty())
        } else {
            before.drop_last().push(before.last().push(s.last()))
        }
    }
}

/// The parts in order, with `sep` between neighbours.
pub open spec fn join(parts: Seq<Seq<char>>, sep: Seq<char>) -> Seq<char>
    decreases parts.len(),
{
    if parts.len() == 0 {
        Seq::empty()
    } else if parts.len() == 1 {
        parts[0]
    } else {
        join(parts.drop_last(), sep) + sep + parts.last()
    }
}

/// The words of `s` with one space between neighbours.
pub open spec fn single_line_of(s: Seq<char>) -> Seq<char> {
    join(words(s), seq![' '])
}

// ---------------------------------------------------------------------------
// Facts
// ---------------------------------------------------------------------------

/// Whether `w` is a word: not empty, and free of whitespace.
pub open spec fn is_word(w: Seq<char>) -> bool {
    w.len() > 0 && forall|i: int| 0 <= i < w.len() ==> !is_space(#[trigger] w[i])
}

/// Every element of `words(s)` is a word; there is an element exactly when `s`
/// is not blank; and a text that ends in a word has a last element.
pub proof fn lemma_words(s: Seq<char>)
    ensures
        forall|k: int| 0 <= k < words(s).len() ==> is_word(#[trigger] words(s)[k]),
        s.len() > 0 && !is_space(s.last()) ==> words(s).len() > 0,
        words(s).len() == 0 <==> is_blank(s),
        words(s).len() <= s.len(),
        forall|k: int| 0 <= k < words(s).len() ==> (#[trigger] words(s)[k]).len() <= s.len(),
    decreases s.len(),
{
    if s.len() > 0 {
        let d = s.drop_last();
        lemma_words(d);
        if s.len() > 1 {
            assert(d.last() == s[s.len() - 2]);
        }
        if is_blank(s) {
            assert(is_blank(d)) by {
                assert forall|i: int| 0 <= i < d.len() implies is_space(#[trigger] d[i]) by {
                    assert(d[i] == s[i]);
                }
            }
        }
        if words(s).len() == 0 {
            assert forall|i: int| 0 <= i < s.len() implies is_space(#[trigger] s[i]) by {
                if i < d.len() {
                    assert(d[i] == s[i]);
                }
            }
        } else if is_blank(s) {
            assert(is_space(s.last()));
            assert(false);
        }
    }
}

/// `split` always yields at least one field, and no field holds the separator.
pub proof fn lemma_split(s: Seq<char>, sep: char)
    ensures
        split(s, sep).len() > 0,
        forall|k: int| 0 <= k < split(s, sep).len() ==> !(#[trigger] split(s, sep)[k]).contains(sep),
    decreases s.len(),
{
    if s.len() > 0 {
        let before = split(s.drop_last(), sep);
        lemma_split(s.drop_last(), sep);
        if s.last() != sep {
            let f = before.last().push(s.last());
            assert(before.last() == before[before.len() - 1]);
            assert(!f.contains(sep)) by {
                if f.contains(sep) {
                    let i = choose|i: int| 0 <= i < f.len() && f[i] == sep;
                    assert(before.last()[i] == sep);
                    assert(before.last().contains(sep));
                }
            }
        }
    }
}

/// The characters of a field of `s` stand in `s`.
pub proof fn lemma_split_chars(s: Seq<char>, sep: char, k: int, c: char)
    requires
        0 <= k < split(s, sep).len(),
        split(s, sep)[k].contains(c),
    ensures
        s.contains(c),
    decreases s.len(),
{
    if s.len() > 0 {
        let d = s.drop_last();
        let before = split(d, sep);
        lemma_split(d, sep);
        let f = split(s, sep)[k];
        let i = choose|i: int| 0 <= i < f.len() && f[i] == c;
        if s.last() == sep {
            if k < before.len() {
                assert(f == before[k]);
                lemma_split_chars(d, sep, k, c);
            }
        } else if k < before.len() - 1 {
            assert(f == before[k]);
            lemma_split_chars(d, sep, k, c);
        } else {
            assert(f == before.last().push(s.last()));
            if i < before.last().len() {
                assert(before[before.len() - 1][i] == c);
                assert(before[before.len() - 1].contains(c));
                lemma_split_chars(d, sep, before.len() - 1, c);
            } else {
                assert(c == s[s.len() - 1]);
            }
        }
        if d.contains(c) {
            let j = choose|j: int| 0 <= j < d.len() && d[j] == c;
            assert(s[j] == c);
        }
    }
}

/// Splitting a text and joining the fields again gives the text back.
pub proof fn split_then_join(s: Seq<char>, sep: char)
    ensures
        join(split(s, sep), seq![sep]) == s,
    decreases s.len(),
{
    if s.len() > 0 {
        let d = s.drop_last();
        let before = split(d, sep);
        split_then_join(d, sep);
        lemma_split(d, sep);
        if s.last() == sep {
            assert(before.push(Seq::<char>::empty()).drop_last() =~= before);
            assert(d + seq![sep] + Seq::<char>::empty() =~= s);
        } else {
            let after = before.drop_last().push(before.last().push(s.last()));
            assert(after.drop_last() =~= before.drop_last());
            if before.len() == 1 {
                assert(after[0] =~= d.push(s.last()));
            } else {
                assert(join(after, seq![sep]) =~= (join(before.drop_last(), seq![sep]) + seq![sep]
                    + before.last()).push(s.last()));
            }
            assert(d.push(s.last()) =~= s);
        }
    }
}

/// A word behind whitespace is a word of its own.
pub proof fn lemma_words_after(p: Seq<char>, b: Seq<char>)
    requires
        is_word(b),
        p.len() == 0 || is_space(p.last()),
    ensures
        words(p + b) == words(p).push(b),
    decreases b.len(),
{
    let s = p + b;
    let d = s.drop_last();
    assert(b.last() == b[b.len() - 1]);
    if b.len() == 1 {
        assert(d =~= p);
        assert(s.last() == b[0]);
        if p.len() > 0 {
            assert(s[s.len() - 2] == p.last());
        }
        assert(seq![b[0]] =~= b);
    } else {
        let bd = b.drop_last();
        assert forall|i: int| 0 <= i < bd.len() implies !is_space(#[trigger] bd[i]) by {
            assert(bd[i] == b[i]);
        }
        lemma_words_after(p, bd);
        assert(d =~= p + bd);
        assert(s[s.len() - 2] == b[b.len() - 2]);
        assert(words(s) == words(d).drop_last().push(words(d).last().push(b.last())));
        assert(words(d).drop_last() =~= words(p));
        assert(bd.push(b.last()) =~= b);
    }
}

/// The words of `a` are not affected by whitespace behind it.
pub proof fn lemma_words_space(a: Seq<char>, c: char)
    requires
        is_space(c),
    ensures
        words(a + seq![c]) == words(a),
{
    assert((a + seq![c]).drop_last() =~= a);
}

/// The words of `a` are not affected by a space and further text behind it.
pub proof fn lemma_words_append(a: Seq<char>, b: Seq<char>)
    requires
        is_word(b),
    ensures
        words(a + seq![' '] + b) == words(a).push(b),
{
    lemma_words_space(a, ' ');
    lemma_words_after(a + seq![' '], b);
}

/// The words of two texts, the first of which ends in whitespace, are those of
/// each.
pub proof fn lemma_words_concat(a: Seq<char>, b: Seq<char>)
    requires
        a.len() == 0 || is_space(a.last()),
    ensures
        words(a + b) == words(a) + words(b),
    decreases b.len(),
{
    let s = a + b;
    if b.len() == 0 {
        assert(s =~= a);
        assert(words(b) =~= Seq::empty());
        assert(words(a) + words(b) =~= words(a));
    } else {
        let d = b.drop_last();
        lemma_words_concat(a, d);
        lemma_words(d);
        assert(s.drop_last() =~= a + d);
        let c = b.last();
        assert(s.last() == c);
        if is_space(c) {
        } else if d.len() == 0 {
            if a.len() > 0 {
                assert(s[s.len() - 2] == a.last());
            }
            assert(words(d).len() == 0);
            assert(words(s) =~= words(a) + words(b));
        } else {
            assert(s[s.len() - 2] == b[b.len() - 2]);
            assert(d.last() == b[b.len() - 2]);
            assert(words(s) =~= words(a) + words(b));
        }
    }
}

/// The parts that hold no separator are the fields of the joined text.
pub proof fn join_then_split(parts: Seq<Seq<char>>, sep: char)
    requires
        parts.len() > 0,
        forall|k: int| 0 <= k < parts.len() ==> !(#[trigger] parts[k]).contains(sep),
    ensures
        split(join(parts, seq![sep]), sep) == parts,
    decreases parts.len(),
{
    let last = parts[parts.len() - 1];
    if parts.len() == 1 {
        lemma_split_plain(Seq::empty(), last, sep);
        assert(Seq::<char>::empty() + last =~= last);
        assert(split(Seq::<char>::empty(), sep) =~= seq![Seq::<char>::empty()]);
        assert(split(last, sep) =~= parts);
    } else {
        let front = parts.drop_last();
        assert forall|k: int| 0 <= k < front.len() implies !(#[trigger] front[k]).contains(
            sep,
        ) by {
            assert(front[k] == parts[k]);
        }
        join_then_split(front, sep);
        let f = join(front, seq![sep]);
        assert((f + seq![sep]).drop_last() =~= f);
        assert(split(f + seq![sep], sep) == front.push(Seq::<char>::empty()));
        lemma_split_plain(f + seq![sep], last, sep);
        assert(front.push(Seq::<char>::empty()).drop_last() =~= front);
        assert(Seq::<char>::empty() + last =~= last);
        assert(front.push(last) =~= parts);
    }
}

/// A text without the separator goes to the end of the last field.
proof fn lemma_split_plain(a: Seq<char>, b: Seq<char>, sep: char)
    requires
        !b.contains(sep),
    ensures
        split(a + b, sep) == split(a, sep).drop_last().push(split(a, sep).last() + b),
    decreases b.len(),
{
    lemma_split(a, sep);
    if b.len() == 0 {
        assert(a + b =~= a);
        assert(split(a, sep).last() + b =~= split(a, sep).last());
        assert(split(a, sep).drop_last().push(split(a, sep).last()) =~= split(a, sep));
    } else {
        let d = b.drop_last();
        assert(!d.contains(sep)) by {
            if d.contains(sep) {
                let i = choose|i: int| 0 <= i < d.len() && d[i] == sep;
                assert(b[i] == sep);
            }
        }
        lemma_split_plain(a, d, sep);
        assert((a + b).drop_last() =~= a + d);
        assert(b.contains(b[b.len() - 1]));
        assert(b.last() == b[b.len() - 1]);
        let r = split(a, sep).drop_last().push(split(a, sep).last() + d);
        assert(r.drop_last() =~= split(a, sep).drop_last());
        assert((split(a, sep).last() + d).push(b.last()) =~= split(a, sep).last() + b);
    }
}

/// The fields of two texts with the separator between are those of each.
pub proof fn lemma_split_concat(a: Seq<char>, b: Seq<char>, sep: char)
    ensures
        split(a + seq![sep] + b, sep) == split(a, sep) + split(b, sep),
    decreases b.len(),
{
    let s = a + seq![sep] + b;
    lemma_split(b, sep);
    if b.len() == 0 {
        assert(s.drop_last() =~= a);
        assert(split(s, sep) =~= split(a, sep) + split(b, sep));
    } else {
        let d = b.drop_last();
        lemma_split_concat(a, d, sep);
        lemma_split(d, sep);
        assert(s.drop_last() =~= a + seq![sep] + d);
        assert(s.last() == b.last());
        assert((split(a, sep) + split(d, sep)).last() == split(d, sep).last());
        assert(split(s, sep) =~= split(a, sep) + split(b, sep));
    }
}

/// Text added to the last part goes to the end of the joined text.
pub proof fn lemma_join_extend(parts: Seq<Seq<char>>, x: Seq<char>, sep: Seq<char>)
    requires
        parts.len() > 0,
    ensures
        join(parts.drop_last().push(parts.last() + x), sep) == join(parts, sep) + x,
{
    let after = parts.drop_last().push(parts.last() + x);
    assert(after.drop_last() =~= parts.drop_last());
    assert(join(after, sep) =~= join(parts, sep) + x);
}

/// A further part goes behind a separator.
pub proof fn lemma_join_push(parts: Seq<Seq<char>>, x: Seq<char>, sep: Seq<char>)
    requires
        parts.len() > 0,
    ensures
        join(parts.push(x), sep) == join(parts, sep) + sep + x,
{
    assert(parts.push(x).drop_last() =~= parts);
}

/// The words of a single word are that word alone.
pub proof fn lemma_words_of_word(b: Seq<char>)
    requires
        is_word(b),
    ensures
        words(b) == seq![b],
    decreases b.len(),
{
    let d = b.drop_last();
    assert(b.last() == b[b.len() - 1]);
    if b.len() == 1 {
        assert(words(d).len() == 0);
        assert(seq![b.last()] =~= b);
        assert(words(b) =~= seq![b]);
    } else {
        assert forall|i: int| 0 <= i < d.len() implies !is_space(#[trigger] d[i]) by {
            assert(d[i] == b[i]);
        }
        lemma_words_of_word(d);
        assert(!is_space(b[b.len() - 2]));
        assert(d.push(b.last()) =~= b);
        assert(words(b) =~= seq![b]);
    }
}

/// Joining words with single spaces and splitting again gives the words back.
pub proof fn lemma_words_of_join(ws: Seq<Seq<char>>)
    requires
        forall|k: int| 0 <= k < ws.len() ==> is_word(#[trigger] ws[k]),
    ensures
        words(join(ws, seq![' '])) == ws,
    decreases ws.len(),
{
    if ws.len() == 0 {
        assert(words(join(ws, seq![' '])) =~= ws);
    } else if ws.len() == 1 {
        lemma_words_of_word(ws[0]);
        assert(seq![ws[0]] =~= ws);
    } else {
        let front = ws.drop_last();
        assert forall|k: int| 0 <= k < front.len() implies is_word(#[trigger] front[k]) by {
            assert(front[k] == ws[k]);
        }
        lemma_words_of_join(front);
        assert(is_word(ws[ws.len() - 1]));
        lemma_words_append(join(front, seq![' ']), ws.last());
        assert(front.push(ws.last()) =~= ws);
    }
}

/// A joined line of words holds no whitespace but single spaces, and neither
/// starts nor ends with one.
pub proof fn lemma_join_words_chars(ws: Seq<Seq<char>>)
    requires
        forall|k: int| 0 <= k < ws.len() ==> is_word(#[trigger] ws[k]),
    ensures
        ({
            let s = join(ws, seq![' ']);
            &&& forall|i: int| 0 <= i < s.len() && is_space(#[trigger] s[i]) ==> s[i] == ' '
            &&& s.len() > 0 ==> !is_space(s[0]) && !is_space(s.last())
            &&& s.len() == 0 <==> ws.len() == 0
        }),
    decreases ws.len(),
{
    let s = join(ws, seq![' ']);
    if ws.len() == 1 {
        let w = ws[0];
        assert(is_word(w));
        assert forall|i: int| 0 <= i < s.len() && is_space(#[trigger] s[i]) implies s[i] == ' ' by {
            assert(!is_space(w[i]));
        }
        assert(!is_space(w[0]));
        assert(!is_space(w[w.len() - 1]));
    } else if ws.len() > 1 {
        let front = ws.drop_last();
        assert forall|k: int| 0 <= k < front.len() implies is_word(#[trigger] front[k]) by {
            assert(front[k] == ws[k]);
        }
        lemma_join_words_chars(front);
        let f = join(front, seq![' ']);
        let w = ws.last();
        assert(is_word(ws[ws.len() - 1]));
        assert(s == f + seq![' '] + w);
        assert forall|i: int| 0 <= i < s.len() && is_space(#[trigger] s[i]) implies s[i] == ' ' by {
            if i < f.len() {
                assert(s[i] == f[i]);
            } else if i > f.len() {
                assert(s[i] == w[i - f.len() - 1]);
            }
        }
        assert(s[0] == f[0]);
        assert(s.last() == w[w.len() - 1]);
    }
}

/// A single line holds no whitespace but spaces, in particular no line break,
/// and neither starts nor ends with one.
pub proof fn single_line_has_no_breaks(s: Seq<char>)
    ensures
        ({
            let l = single_line_of(s);
            &&& forall|i: int| 0 <= i < l.len() && is_space(#[trigger] l[i]) ==> l[i] == ' '
            &&& l.len() > 0 ==> !is_space(l[0]) && !is_space(l.last())
            &&& l.len() == 0 <==> is_blank(s)
            &&& !l.contains('\n')
        }),
{
    lemma_words(s);
    lemma_join_words_chars(words(s));
    let l = single_line_of(s);
    if l.contains('\n') {
        let i = choose|i: int| 0 <= i < l.len() && l[i] == '\n';
        assert(is_space(l[i]));
    }
}

/// Flattening to a single line keeps the words, and doing it twice is doing it
/// once.
pub proof fn single_line_is_idempotent(s: Seq<char>)
    ensures
        words(single_line_of(s)) == words(s),
        single_line_of(single_line_of(s)) == single_line_of(s),
{
    lemma_words(s);
    lemma_words_of_join(words(s));
}

// ---------------------------------------------------------------------------
// Executable functions
// ---------------------------------------------------------------------------

/// The words of a text.
pub fn words_of(v: &[char]) -> (r: Vec<String>)
    ensures
        texts(r@) == words(v@),
{
    let mut out: Vec<String> = Vec::new();
    let mut cur = String::new();
    let mut in_word = false;
    let mut i: usize = 0;
    assert(texts(out@) =~= words(v@.take(0)));
    while i < v.len()
        invariant
            i <= v.len(),
            in_word == (i > 0 && !is_space(v@[i - 1])),
            in_word ==> words(v@.take(i as int)) == texts(out@).push(cur@),
            !in_word ==> words(v@.take(i as int)) == texts(out@) && cur@.len() == 0,
        decreases v.len() - i,
    {
        let c = v[i];
        let ghost p = v@.take(i + 1);
        let ghost old_out = out@;
        assert(p.drop_last() =~= v@.take(i as int));
        assert(p.last() == c);
        if is_whitespace(c) {
            if in_word {
                out.push(cur);
                cur = String::new();
                assert(texts(out@) =~= words(v@.take(i as int)));
            }
            in_word = false;
        } else {
            cur.push(c);
            proof {
                if in_word {
                    assert(p[p.len() - 2] == v@[i - 1]);
                    assert(words(p.drop_last()).drop_last() =~= texts(out@));
                } else {
                    assert(cur@ =~= seq![c]);
                    if i > 0 {
                        assert(p[p.len() - 2] == v@[i - 1]);
                    }
                }
            }
            in_word = true;
        }
        i += 1;
    }
    assert(v@.take(v.len() as int) =~= v@);
    if in_word {
        let ghost old_out = out@;
        out.push(cur);
        assert(texts(out@) =~= texts(old_out).push(cur@));
    }
    out
}

/// The fields of a text between occurrences of a separator.
pub fn split_on(v: &[char], sep: char) -> (r: Vec<String>)
    ensures
        texts(r@) == split(v@, sep),
        r.len() > 0,
{
    let mut out: Vec<String> = Vec::new();
    let mut cur = String::new();
    let mut i: usize = 0;
    assert(texts(out@).push(cur@) =~= split(v@.take(0), sep));
    while i < v.len()
        invariant
            i <= v.len(),
            split(v@.take(i as int), sep) == texts(out@).push(cur@),
        decreases v.len() - i,
    {
        let c = v[i];
        let ghost p = v@.take(i + 1);
        let ghost before = split(v@.take(i as int), sep);
        assert(p.drop_last() =~= v@.take(i as int));
        assert(before.drop_last() =~= texts(out@));
        if c == sep {
            let ghost old_out = out@;
            out.push(cur);
            cur = String::new();
            assert(texts(out@) =~= before);
        } else {
            cur.push(c);
        }
        i += 1;
    }
    assert(v@.take(v.len() as int) =~= v@);
    let ghost old_out = out@;
    out.push(cur);
    assert(texts(out@) =~= texts(old_out).push(cur@));
    out
}

/// The parts in order, with `sep` between neighbours.
pub fn join_texts(parts: &Vec<String>, sep: &str) -> (r: String)
    ensures
        r@ == join(texts(parts@), sep@),
{
    let mut out = String::new();
    let mut i: usize = 0;
    assert(out@ =~= join(texts(parts@).take(0), sep@));
    while i < parts.len()
        invariant
            i <= parts.len(),
            out@ == join(texts(parts@).take(i as int), sep@),
        decreases parts.len() - i,
    {
        let ghost p = texts(parts@).take(i + 1);
        assert(p.drop_last() =~= texts(parts@).take(i as int));
        assert(p.last() == parts@[i as int]@);
        if i > 0 {
            out.append(sep);
        }
        out.append(parts[i].as_str());
        proof {
            if i == 0 {
                assert(out@ =~= p[0]);
            }
        }
        i += 1;
    }
    assert(texts(parts@).take(parts.len() as int) =~= texts(parts@));
    out
}

/// The words of a text on one line, with one space between neighbours.
pub fn flatten(s: &str) -> (r: String)
    ensures
        r@ == single_line_of(s@),
{
    let v = chars_of(s);
    let ws = words_of(v.as_slice());
    proof {
        reveal_strlit(" ");
        assert(" "@ =~= seq![' ']);
    }
    join_texts(&ws, " ")
}

} // verus!
