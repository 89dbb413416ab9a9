//! Selecting, changing and looking up rows of any table.

use vstd::prelude::*;

use crate::db::entities::Row;

verus! {

/// Whether `after` is `before` with every row that is hit changed, and every
/// other row as it was.
pub open spec fn rows_changed<T>(
    before: Seq<T>,
    after: Seq<T>,
    hit: spec_fn(T) -> bool,
    change: spec_fn(T, T) -> bool,
) -> bool {
    &&& after.len() == before.len()
    &&& forall|i: int|
        0 <= i < before.len() ==> if hit(before[i]) {
            change(before[i], #[trigger] after[i])
        } else {
            after[i] == before[i]
        }
}

/// The first row that is hit.
pub open spec fn first_hit<T>(rows: Seq<T>, hit: spec_fn(T) -> bool) -> Option<T>
    decreases rows.len(),
{
    if rows.len() == 0 {
        None
    } else if hit(rows[0]) {
        Some(rows[0])
    } else {
        first_hit(rows.drop_first(), hit)
    }
}

/// A first hit is a row that is hit; without one, no row is.
pub proof fn lemma_first_hit<T>(rows: Seq<T>, hit: spec_fn(T) -> bool)
    ensures
        first_hit(rows, hit) matches Some(r) ==> rows.contains(r) && hit(r),
        first_hit(rows, hit) is None ==> forall|i: int|
            0 <= i < rows.len() ==> !hit(#[trigger] rows[i]),
    decreases rows.len(),
{
    if rows.len() > 0 && !hit(rows[0]) {
        let d = rows.drop_first();
        lemma_first_hit(d, hit);
        match first_hit(d, hit) {
            Some(r) => {
                let i = choose|i: int| 0 <= i < d.len() && d[i] == r;
                assert(rows[i + 1] == r);
            },
            None => {
                assert forall|i: int| 0 <= i < rows.len() implies !hit(#[trigger] rows[i]) by {
                    if i > 0 {
                        assert(d[i - 1] == rows[i]);
                    }
                }
            },
        }
    }
}

/// Copies of the rows that are kept, in their order.
pub(crate) fn select_rows<T: Row, F: Fn(&T) -> bool>(
    rows: &Vec<T>,
    keep: F,
    Ghost(kept): Ghost<spec_fn(T) -> bool>,
) -> (r: Vec<T>)
    requires
        forall|a: &T| call_requires(keep, (a,)),
        forall|a: &T, b: bool| call_ensures(keep, (a,), b) ==> b == kept(*a),
    ensures
        r@ == rows@.filter(kept),
{
    let mut out: Vec<T> = Vec::new();
    let mut i: usize = 0;
    proof {
        reveal(Seq::filter);
        assert(rows@.take(0).filter(kept) =~= Seq::empty());
    }
    while i < rows.len()
        invariant
            i <= rows.len(),
            forall|a: &T| call_requires(keep, (a,)),
            forall|a: &T, b: bool| call_ensures(keep, (a,), b) ==> b == kept(*a),
            out@ == rows@.take(i as int).filter(kept),
        decreases rows.len() - i,
    {
        proof {
            reveal(Seq::filter);
            assert(rows@.take(i + 1).drop_last() =~= rows@.take(i as int));
            assert(rows@.take(i + 1).last() == rows@[i as int]);
        }
        if keep(&rows[i]) {
            out.push(rows[i].copy());
        }
        i += 1;
    }
    assert(rows@.take(rows.len() as int) =~= rows@);
    out
}

/// A copy of the first row that is hit.
pub(crate) fn find_row<T: Row, F: Fn(&T) -> bool>(
    rows: &Vec<T>,
    hit: F,
    Ghost(hits): Ghost<spec_fn(T) -> bool>,
) -> (r: Option<T>)
    requires
        forall|a: &T| call_requires(hit, (a,)),
        forall|a: &T, b: bool| call_ensures(hit, (a,), b) ==> b == hits(*a),
    ensures
        r == first_hit(rows@, hits),
{
    let mut i: usize = 0;
    assert(rows@.skip(0) =~= rows@);
    while i < rows.len()
        invariant
            i <= rows.len(),
            forall|a: &T| call_requires(hit, (a,)),
            forall|a: &T, b: bool| call_ensures(hit, (a,), b) ==> b == hits(*a),
            first_hit(rows@, hits) == first_hit(rows@.skip(i as int), hits),
        decreases rows.len() - i,
    {
        if hit(&rows[i]) {
            return Some(rows[i].copy());
        }
        assert(rows@.skip(i as int).drop_first() =~= rows@.skip(i + 1));
        i += 1;
    }
    None
}

/// Change every row that is hit; the number of rows changed.
pub(crate) fn change_rows<T: Row, F: Fn(&T) -> bool, G: Fn(&T) -> T>(
    rows: &mut Vec<T>,
    hit: F,
    edit: G,
    Ghost(hits): Ghost<spec_fn(T) -> bool>,
    Ghost(change): Ghost<spec_fn(T, T) -> bool>,
) -> (n: u64)
    requires
        forall|a: &T| call_requires(hit, (a,)),
        forall|a: &T, b: bool| call_ensures(hit, (a,), b) ==> b == hits(*a),
        forall|a: &T| call_requires(edit, (a,)),
        forall|a: &T, b: T| call_ensures(edit, (a,), b) ==> change(*a, b),
    ensures
        rows_changed(old(rows)@, final(rows)@, hits, change),
        n == old(rows)@.filter(hits).len(),
{
    let mut out: Vec<T> = Vec::new();
    let mut n: u64 = 0;
    let mut i: usize = 0;
    proof {
        reveal(Seq::filter);
        assert(rows@.take(0).filter(hits) =~= Seq::empty());
    }
    while i < rows.len()
        invariant
            i <= rows.len(),
            rows@ == old(rows)@,
            forall|a: &T| call_requires(hit, (a,)),
            forall|a: &T, b: bool| call_ensures(hit, (a,), b) ==> b == hits(*a),
            forall|a: &T| call_requires(edit, (a,)),
            forall|a: &T, b: T| call_ensures(edit, (a,), b) ==> change(*a, b),
            n == rows@.take(i as int).filter(hits).len(),
            n <= i,
            out@.len() == i,
            forall|k: int|
                0 <= k < i ==> if hits(rows@[k]) {
                    change(rows@[k], #[trigger] out@[k])
                } else {
                    out@[k] == rows@[k]
                },
        decreases rows.len() - i,
    {
        proof {
            reveal(Seq::filter);
            assert(rows@.take(i + 1).drop_last() =~= rows@.take(i as int));
            assert(rows@.take(i + 1).last() == rows@[i as int]);
        }
        if hit(&rows[i]) {
            out.push(edit(&rows[i]));
            n += 1;
        } else {
            out.push(rows[i].copy());
        }
        i += 1;
    }
    assert(rows@.take(rows.len() as int) =~= rows@);
    *rows = out;
    n
}

} // verus!
