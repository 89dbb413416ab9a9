//! Stable sorting by an order given as a function.

use vstd::prelude::*;

verus! {

/// `x` placed into `s` behind every trailing element that must not come after it.
pub open spec fn placed<T>(s: Seq<T>, x: T, leq: spec_fn(T, T) -> bool) -> Seq<T>
    decreases s.len(),
{
    if s.len() == 0 || leq(s.last(), x) {
        s.push(x)
    } else {
        placed(s.drop_last(), x, leq).push(s.last())
    }
}

/// The elements of `s` in order; those that the order does not tell apart stay
/// as they stood.
pub open spec fn sorted<T>(s: Seq<T>, leq: spec_fn(T, T) -> bool) -> Seq<T>
    decreases s.len(),
{
    if s.len() == 0 {
        s
    } else {
        placed(sorted(s.drop_last(), leq), s.last(), leq)
    }
}

/// Whether every element comes before those behind it.
pub open spec fn in_order<T>(s: Seq<T>, leq: spec_fn(T, T) -> bool) -> bool {
    forall|i: int, j: int| 0 <= i < j < s.len() ==> leq(#[trigger] s[i], #[trigger] s[j])
}

/// Whether `leq` is total and transitive.
pub open spec fn is_order<T>(leq: spec_fn(T, T) -> bool) -> bool {
    &&& forall|a: T, b: T| #[trigger] leq(a, b) || leq(b, a)
    &&& forall|a: T, b: T, c: T| #[trigger] leq(a, b) && #[trigger] leq(b, c) ==> leq(a, c)
}

/// Placing an element keeps the others and adds it once.
proof fn lemma_placed<T>(s: Seq<T>, x: T, leq: spec_fn(T, T) -> bool)
    ensures
        placed(s, x, leq).len() == s.len() + 1,
        placed(s, x, leq).to_multiset() =~= s.to_multiset().insert(x),
    decreases s.len(),
{
    broadcast use vstd::seq_lib::group_to_multiset_ensures;

    if s.len() > 0 && !leq(s.last(), x) {
        lemma_placed(s.drop_last(), x, leq);
        assert(s.drop_last().push(s.last()) =~= s);
    }
}

/// Placing an element into a sequence in order leaves it in order.
proof fn lemma_placed_in_order<T>(s: Seq<T>, x: T, leq: spec_fn(T, T) -> bool)
    requires
        is_order(leq),
        in_order(s, leq),
    ensures
        in_order(placed(s, x, leq), leq),
        forall|k: int|
            0 <= k < placed(s, x, leq).len() ==> placed(s, x, leq)[k] == x || s.contains(
                #[trigger] placed(s, x, leq)[k],
            ),
    decreases s.len(),
{
    let r = placed(s, x, leq);
    lemma_placed(s, x, leq);
    if s.len() == 0 || leq(s.last(), x) {
        assert forall|i: int, j: int| 0 <= i < j < r.len() implies leq(
            #[trigger] r[i],
            #[trigger] r[j],
        ) by {
            if j == s.len() && i < s.len() - 1 {
                assert(leq(s[i], s[s.len() - 1]));
            }
        }
        assert forall|k: int| 0 <= k < r.len() implies r[k] == x || s.contains(#[trigger] r[k]) by {
            if k < s.len() {
                assert(s[k] == r[k]);
            }
        }
    } else {
        let d = s.drop_last();
        let p = placed(d, x, leq);
        assert forall|i: int, j: int| 0 <= i < j < d.len() implies leq(
            #[trigger] d[i],
            #[trigger] d[j],
        ) by {
            assert(d[i] == s[i] && d[j] == s[j]);
        }
        lemma_placed_in_order(d, x, leq);
        lemma_placed(d, x, leq);
        assert(leq(x, s.last()));
        assert forall|i: int, j: int| 0 <= i < j < r.len() implies leq(
            #[trigger] r[i],
            #[trigger] r[j],
        ) by {
            if j < p.len() {
                assert(r[i] == p[i] && r[j] == p[j]);
            } else {
                assert(r[j] == s.last());
                assert(r[i] == p[i]);
                if p[i] != x {
                    let k = choose|k: int| 0 <= k < d.len() && d[k] == p[i];
                    assert(s[k] == d[k]);
                    assert(leq(s[k], s[s.len() - 1]));
                }
            }
        }
        assert forall|k: int| 0 <= k < r.len() implies r[k] == x || s.contains(#[trigger] r[k]) by {
            if k < p.len() {
                assert(r[k] == p[k]);
                if p[k] != x {
                    let q = choose|q: int| 0 <= q < d.len() && d[q] == p[k];
                    assert(s[q] == r[k]);
                }
            } else {
                assert(s[s.len() - 1] == r[k]);
            }
        }
    }
}

/// Sorting keeps every element, as often as it was there.
pub proof fn sorting_keeps_the_elements<T>(s: Seq<T>, leq: spec_fn(T, T) -> bool)
    ensures
        sorted(s, leq).len() == s.len(),
        sorted(s, leq).to_multiset() == s.to_multiset(),
    decreases s.len(),
{
    broadcast use vstd::seq_lib::group_to_multiset_ensures;

    if s.len() > 0 {
        sorting_keeps_the_elements(s.drop_last(), leq);
        lemma_placed(sorted(s.drop_last(), leq), s.last(), leq);
        assert(s.drop_last().push(s.last()) =~= s);
        assert(sorted(s, leq).to_multiset() =~= s.to_multiset());
    }
}

/// A sorted sequence is in order, whenever the order is total and transitive.
pub proof fn sorting_puts_in_order<T>(s: Seq<T>, leq: spec_fn(T, T) -> bool)
    requires
        is_order(leq),
    ensures
        in_order(sorted(s, leq), leq),
    decreases s.len(),
{
    if s.len() > 0 {
        sorting_puts_in_order(s.drop_last(), leq);
        lemma_placed_in_order(sorted(s.drop_last(), leq), s.last(), leq);
    }
}

/// What is in order already stays as it is.
pub proof fn sorting_keeps_what_is_in_order<T>(s: Seq<T>, leq: spec_fn(T, T) -> bool)
    requires
        in_order(s, leq),
    ensures
        sorted(s, leq) == s,
    decreases s.len(),
{
    if s.len() > 0 {
        let d = s.drop_last();
        assert forall|i: int, j: int| 0 <= i < j < d.len() implies leq(
            #[trigger] d[i],
            #[trigger] d[j],
        ) by {
            assert(d[i] == s[i] && d[j] == s[j]);
        }
        sorting_keeps_what_is_in_order(d, leq);
        if d.len() > 0 {
            assert(leq(s[s.len() - 2], s[s.len() - 1]));
        }
        assert(d.push(s.last()) =~= s);
    }
}

/// An element is placed behind those that the order does not tell apart from it.
proof fn lemma_placed_stable<T>(
    s: Seq<T>,
    x: T,
    leq: spec_fn(T, T) -> bool,
    class: spec_fn(T) -> bool,
)
    requires
        forall|a: T, b: T| class(a) && class(b) ==> #[trigger] leq(a, b),
    ensures
        placed(s, x, leq).filter(class) == s.push(x).filter(class),
    decreases s.len(),
{
    if s.len() > 0 && !leq(s.last(), x) {
        let d = s.drop_last();
        let p = placed(d, x, leq);
        lemma_placed_stable(d, x, leq, class);
        lemma_filter_push(p, s.last(), class);
        lemma_filter_push(d, x, class);
        lemma_filter_push(d, s.last(), class);
        lemma_filter_push(s, x, class);
        assert(d.push(s.last()) =~= s);
    }
}

/// Filtering a sequence with one more element at its end.
proof fn lemma_filter_push<T>(s: Seq<T>, x: T, class: spec_fn(T) -> bool)
    ensures
        s.push(x).filter(class) == if class(x) {
            s.filter(class).push(x)
        } else {
            s.filter(class)
        },
{
    reveal(Seq::filter);
    assert(s.push(x).drop_last() =~= s);
}

/// Elements that the order does not tell apart keep their relative places.
pub proof fn sorting_is_stable<T>(
    s: Seq<T>,
    leq: spec_fn(T, T) -> bool,
    class: spec_fn(T) -> bool,
)
    requires
        forall|a: T, b: T| class(a) && class(b) ==> #[trigger] leq(a, b),
    ensures
        sorted(s, leq).filter(class) == s.filter(class),
    decreases s.len(),
{
    if s.len() > 0 {
        let d = s.drop_last();
        let r = sorted(d, leq);
        sorting_is_stable(d, leq, class);
        lemma_placed_stable(r, s.last(), leq, class);
        lemma_filter_push(r, s.last(), class);
        lemma_filter_push(d, s.last(), class);
        assert(d.push(s.last()) =~= s);
    }
}

/// Sorting selects nothing new: every element of the result stood in the input,
/// and every element of the input stands in the result.
pub proof fn sorting_keeps_membership<T>(s: Seq<T>, leq: spec_fn(T, T) -> bool, x: T)
    ensures
        sorted(s, leq).contains(x) <==> s.contains(x),
{
    broadcast use vstd::seq_lib::group_to_multiset_ensures;

    sorting_keeps_the_elements(s, leq);
    assert(s.to_multiset().count(x) > 0 <==> s.contains(x));
    assert(sorted(s, leq).to_multiset().count(x) > 0 <==> sorted(s, leq).contains(x));
}

/// The rows in order; rows that the order does not tell apart stay as they stood.
pub(crate) fn sort_rows<T, F: Fn(&T, &T) -> bool>(
    rows: Vec<T>,
    before: F,
    Ghost(leq): Ghost<spec_fn(T, T) -> bool>,
) -> (r: Vec<T>)
    requires
        forall|a: &T, b: &T| call_requires(before, (a, b)),
        forall|a: &T, b: &T, r: bool| call_ensures(before, (a, b), r) ==> r == leq(*a, *b),
    ensures
        r@ == sorted(rows@, leq),
{
    let mut out: Vec<T> = Vec::new();
    let ghost all = rows@;
    assert(out@ =~= sorted(all.take(0), leq));
    for x in it: rows
        invariant
            it.seq() == all,
            forall|a: &T, b: &T| call_requires(before, (a, b)),
            forall|a: &T, b: &T, r: bool| call_ensures(before, (a, b), r) ==> r == leq(*a, *b),
            out@ == sorted(all.take(it.index()), leq),
    {
        let ghost done = all.take(it.index());
        let ghost sofar = out@;
        assert(all.take(it.index() + 1).drop_last() =~= done);
        let mut k: usize = out.len();
        let ghost mut tail: Seq<T> = Seq::empty();
        assert(sofar.take(k as int) =~= sofar);
        assert(placed(sofar, x, leq) =~= placed(sofar.take(k as int), x, leq) + tail);
        while k > 0 && !before(&out[k - 1], &x)
            invariant
                k <= out.len(),
                out@ == sofar,
                tail == sofar.skip(k as int),
                forall|a: &T, b: &T| call_requires(before, (a, b)),
                forall|a: &T, b: &T, r: bool| call_ensures(before, (a, b), r) ==> r == leq(*a, *b),
                placed(sofar, x, leq) == placed(sofar.take(k as int), x, leq) + tail,
            decreases k,
        {
            proof {
                let p = sofar.take(k as int);
                assert(p.drop_last() =~= sofar.take(k - 1));
                assert(p.last() == sofar[k - 1]);
                assert(placed(p, x, leq) + tail =~= placed(sofar.take(k - 1), x, leq)
                    + sofar.skip(k - 1));
                tail = sofar.skip(k - 1);
            }
            k -= 1;
        }
        proof {
            let p = sofar.take(k as int);
            if k > 0 {
                assert(p.last() == sofar[k - 1]);
            }
            assert(placed(p, x, leq) == p.push(x));
            assert(p.push(x) + tail =~= sofar.insert(k as int, x));
        }
        out.insert(k, x);
    }
    assert(all.take(all.len() as int) =~= all);
    out
}

} // verus!
