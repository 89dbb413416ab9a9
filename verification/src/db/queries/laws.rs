//! What the queries promise together.

use vstd::prelude::*;

use crate::clock::{is_before, is_common, rfc3339_text, sorts_as};
use crate::db::entities::{application, company, posting};
use crate::db::queries::applications::{
    by_applied, is_application, is_application_for, is_listed, is_moved, is_new_application,
};
use crate::db::queries::companies::{
    by_board, by_name, has_board, is_new_seed, new_seeds, seed_draft, seed_key, SeedCompany,
};
use crate::db::queries::postings::{
    by_first_seen, by_rank, has_applied, is_closed, is_dismissed, is_new_posting, is_pickable,
    is_one_of, is_posting, is_posting_of, is_refreshed, is_scored, is_shown, is_stale, is_triaged,
    is_unscored, is_untriaged, PostingWrite,
};
use crate::db::tables::{first_hit, lemma_first_hit, rows_changed};
use crate::normalize::NormalizedPosting;
use crate::sorting::{
    in_order, is_order, sorted, sorting_keeps_membership, sorting_puts_in_order,
};
use crate::text::order::{
    text_le, text_le_is_antisymmetric, text_le_is_total, text_le_is_transitive, text_lt,
};

verus! {

// ---------------------------------------------------------------------------
// Orders
// ---------------------------------------------------------------------------

/// Every order that a view uses is total and transitive.
pub proof fn views_are_ordered()
    ensures
        is_order(by_board()),
        is_order(by_name()),
        is_order(by_first_seen()),
        is_order(by_rank()),
        is_order(by_applied()),
{
    assert forall|a: Seq<char>, b: Seq<char>| #[trigger] text_le(a, b) || text_le(b, a) by {
        text_le_is_total(a, b);
    }
    assert forall|a: Seq<char>, b: Seq<char>, c: Seq<char>| #[trigger]
        text_le(a, b) && #[trigger] text_le(b, c) implies text_le(a, c) by {
        text_le_is_transitive(a, b, c);
    }
    assert forall|a: Seq<char>, b: Seq<char>| #[trigger] text_le(a, b) && text_le(b, a) implies a
        == b by {
        text_le_is_antisymmetric(a, b);
    }
    assert forall|a: company::Model, b: company::Model, c: company::Model| #[trigger]
        by_board()(a, b) && #[trigger] by_board()(b, c) implies by_board()(a, c) by {
        if a.ats@ != b.ats@ && b.ats@ != c.ats@ {
            text_le_is_transitive(a.ats@, b.ats@, c.ats@);
        }
    }
    assert forall|a: posting::Model, b: posting::Model| #[trigger] by_rank()(a, b) || by_rank()(
        b,
        a,
    ) by {
        text_le_is_total(a.first_seen@, b.first_seen@);
    }
    assert forall|a: posting::Model, b: posting::Model, c: posting::Model| #[trigger]
        by_rank()(a, b) && #[trigger] by_rank()(b, c) implies by_rank()(a, c) by {
        if text_le(b.first_seen@, a.first_seen@) && text_le(c.first_seen@, b.first_seen@) {
            text_le_is_transitive(c.first_seen@, b.first_seen@, a.first_seen@);
        }
    }
    assert forall|a: posting::Model, b: posting::Model, c: posting::Model| #[trigger]
        by_first_seen()(a, b) && #[trigger] by_first_seen()(b, c) implies by_first_seen()(
        a,
        c,
    ) by {
        text_le_is_transitive(a.first_seen@, b.first_seen@, c.first_seen@);
    }
}

/// The digest is in rank order, and holds exactly the postings to show: open, not
/// dismissed, recent enough and scored high enough.
pub proof fn digest_is_ranked_and_complete(
    rows: Seq<posting::Model>,
    since: Option<Seq<char>>,
    min_score: Option<i32>,
)
    ensures
        in_order(sorted(rows.filter(is_shown(since, min_score)), by_rank()), by_rank()),
        forall|p: posting::Model| #[trigger]
            sorted(rows.filter(is_shown(since, min_score)), by_rank()).contains(p)
                <==> rows.contains(p) && is_shown(since, min_score)(p),
{
    let shown = rows.filter(is_shown(since, min_score));
    views_are_ordered();
    sorting_puts_in_order(shown, by_rank());
    assert forall|p: posting::Model| #[trigger] sorted(shown, by_rank()).contains(p)
        <==> rows.contains(p) && is_shown(since, min_score)(p) by {
        sorting_keeps_membership(shown, by_rank(), p);
        lemma_filtered(rows, is_shown(since, min_score), p);
    }
}

/// What a filter keeps: the elements that satisfy the predicate.
proof fn lemma_filtered<T>(rows: Seq<T>, keep: spec_fn(T) -> bool, x: T)
    ensures
        rows.filter(keep).contains(x) <==> rows.contains(x) && keep(x),
{
    broadcast use vstd::seq_lib::group_filter_ensures;

    if rows.filter(keep).contains(x) {
        let i = choose|i: int| 0 <= i < rows.filter(keep).len() && rows.filter(keep)[i] == x;
        rows.lemma_filter_contains_rev(keep, rows.filter(keep)[i]);
    }
}

// ---------------------------------------------------------------------------
// Companies
// ---------------------------------------------------------------------------

/// No board is stored twice.
pub open spec fn boards_are_distinct(rows: Seq<company::Model>) -> bool {
    forall|i: int, j: int|
        0 <= i < j < rows.len() ==> (#[trigger] rows[i]).key() != (#[trigger] rows[j]).key()
}

/// The table after the drafts of the new seeds were stored under fresh ids.
pub open spec fn seeded(
    rows: Seq<company::Model>,
    seeds: Seq<SeedCompany>,
    ids: spec_fn(int) -> i32,
) -> Seq<company::Model> {
    rows + Seq::new(
        new_seeds(rows, seeds).len(),
        |i: int| seed_draft(new_seeds(rows, seeds)[i]).row(ids(i)),
    )
}

/// The new seeds are among the seeds, name boards that are not stored, and no two
/// name the same; every board that a seed names is stored or among them.
proof fn lemma_new_seeds(rows: Seq<company::Model>, seeds: Seq<SeedCompany>)
    ensures
        forall|i: int|
            0 <= i < new_seeds(rows, seeds).len() ==> seeds.contains(
                #[trigger] new_seeds(rows, seeds)[i],
            ) && !has_board(rows, seed_key(new_seeds(rows, seeds)[i])),
        forall|i: int, j: int|
            0 <= i < j < new_seeds(rows, seeds).len() ==> seed_key(
                #[trigger] new_seeds(rows, seeds)[i],
            ) != seed_key(#[trigger] new_seeds(rows, seeds)[j]),
        forall|k: int|
            0 <= k < seeds.len() ==> has_board(rows, seed_key(#[trigger] seeds[k])) || exists|i: int|
                0 <= i < new_seeds(rows, seeds).len() && seed_key(
                    #[trigger] new_seeds(rows, seeds)[i],
                ) == seed_key(seeds[k]),
    decreases seeds.len(),
{
    if seeds.len() > 0 {
        let d = seeds.drop_last();
        let front = new_seeds(rows, d);
        let all = new_seeds(rows, seeds);
        let last = seeds.len() - 1;
        lemma_new_seeds(rows, d);
        assert forall|i: int| 0 <= i < all.len() implies seeds.contains(#[trigger] all[i])
            && !has_board(rows, seed_key(all[i])) by {
            if i < front.len() {
                assert(all[i] == front[i]);
                let k = choose|k: int| 0 <= k < d.len() && d[k] == front[i];
                assert(seeds[k] == all[i]);
            } else {
                assert(all[i] == seeds[last]);
            }
        }
        assert forall|i: int, j: int| 0 <= i < j < all.len() implies seed_key(#[trigger] all[i])
            != seed_key(#[trigger] all[j]) by {
            assert(all[i] == front[i]);
            if j < front.len() {
                assert(all[j] == front[j]);
            } else {
                let k = choose|k: int| 0 <= k < d.len() && d[k] == front[i];
                assert(seeds[k] == front[i]);
            }
        }
        assert forall|k: int| 0 <= k < seeds.len() implies has_board(
            rows,
            seed_key(#[trigger] seeds[k]),
        ) || exists|i: int|
            0 <= i < all.len() && seed_key(#[trigger] all[i]) == seed_key(seeds[k]) by {
            if !has_board(rows, seed_key(seeds[k])) {
                if k < last {
                    assert(d[k] == seeds[k]);
                    let i = choose|i: int|
                        0 <= i < front.len() && seed_key(#[trigger] front[i]) == seed_key(d[k]);
                    assert(all[i] == front[i]);
                } else if is_new_seed(rows, seeds, last) {
                    assert(all[front.len() as int] == seeds[last]);
                } else {
                    let j = choose|j: int|
                        0 <= j < last && seed_key(#[trigger] seeds[j]) == seed_key(seeds[last]);
                    assert(d[j] == seeds[j]);
                    let i = choose|i: int|
                        0 <= i < front.len() && seed_key(#[trigger] front[i]) == seed_key(d[j]);
                    assert(all[i] == front[i]);
                }
            }
        }
    }
}

/// Seeding keeps what is stored, and stores no board twice.
pub proof fn seeding_keeps_boards_distinct(
    rows: Seq<company::Model>,
    seeds: Seq<SeedCompany>,
    ids: spec_fn(int) -> i32,
)
    requires
        boards_are_distinct(rows),
    ensures
        boards_are_distinct(seeded(rows, seeds, ids)),
        rows.is_prefix_of(seeded(rows, seeds, ids)),
{
    lemma_new_seeds(rows, seeds);
    let all = seeded(rows, seeds, ids);
    let fresh = new_seeds(rows, seeds);
    assert forall|i: int, j: int| 0 <= i < j < all.len() implies (#[trigger] all[i]).key() != (
    #[trigger] all[j]).key() by {
        if j >= rows.len() {
            let b = j - rows.len();
            assert(all[j].key() == seed_key(fresh[b]));
            if i < rows.len() {
                assert(all[i] == rows[i]);
            } else {
                let a = i - rows.len();
                assert(all[i].key() == seed_key(fresh[a]));
            }
        } else {
            assert(all[i] == rows[i] && all[j] == rows[j]);
        }
    }
}

/// After seeding every listed board is stored, so seeding again adds nothing.
pub proof fn seeding_again_adds_nothing(
    rows: Seq<company::Model>,
    seeds: Seq<SeedCompany>,
    ids: spec_fn(int) -> i32,
)
    ensures
        forall|k: int|
            0 <= k < seeds.len() ==> has_board(
                seeded(rows, seeds, ids),
                seed_key(#[trigger] seeds[k]),
            ),
        new_seeds(seeded(rows, seeds, ids), seeds) == Seq::<SeedCompany>::empty(),
{
    let all = seeded(rows, seeds, ids);
    let fresh = new_seeds(rows, seeds);
    lemma_new_seeds(rows, seeds);
    assert forall|k: int| 0 <= k < seeds.len() implies has_board(
        all,
        seed_key(#[trigger] seeds[k]),
    ) by {
        if has_board(rows, seed_key(seeds[k])) {
            let i = choose|i: int|
                0 <= i < rows.len() && (#[trigger] rows[i]).key() == seed_key(seeds[k]);
            assert(all[i] == rows[i]);
        } else {
            let i = choose|i: int|
                0 <= i < fresh.len() && seed_key(#[trigger] fresh[i]) == seed_key(seeds[k]);
            assert(all[rows.len() + i].key() == seed_key(fresh[i]));
        }
    }
    lemma_new_seeds(all, seeds);
    assert(new_seeds(all, seeds).len() == 0) by {
        if new_seeds(all, seeds).len() > 0 {
            let s = new_seeds(all, seeds)[0];
            let k = choose|k: int| 0 <= k < seeds.len() && seeds[k] == s;
            assert(has_board(all, seed_key(seeds[k])));
        }
    }
}

// ---------------------------------------------------------------------------
// Postings
// ---------------------------------------------------------------------------

/// No posting is stored twice.
pub open spec fn postings_are_distinct(rows: Seq<posting::Model>) -> bool {
    forall|i: int, j: int|
        0 <= i < j < rows.len() ==> (#[trigger] rows[i]).key() != (#[trigger] rows[j]).key()
}

/// The table after a write: an insertion adds a row under the id, an update
/// replaces the row with the same key.
pub open spec fn written(rows: Seq<posting::Model>, w: PostingWrite, id: i32) -> Seq<
    posting::Model,
> {
    match w {
        PostingWrite::Insert(d) => rows.push(d.row(id)),
        PostingWrite::Update(u) => rows.map_values(
            |p: posting::Model|
                if p.key() == u.key() {
                    u
                } else {
                    p
                },
        ),
    }
}

/// Whether a write is what an upsert asks for.
pub open spec fn is_upsert(
    rows: Seq<posting::Model>,
    company_id: i32,
    p: NormalizedPosting,
    now: Seq<char>,
    w: PostingWrite,
) -> bool {
    match first_hit(rows, is_posting_of(company_id, p.external_id@)) {
        Some(m) => w matches PostingWrite::Update(u) && is_refreshed(m, u, p, now),
        None => w matches PostingWrite::Insert(d) && is_new_posting(d, company_id, p, now),
    }
}

/// What was upserted is what is read back: the posting is stored under its key,
/// open, with the board's text, and last seen now. The rows stay distinct, and
/// every other row is as it was.
pub proof fn upsert_is_read_back(
    rows: Seq<posting::Model>,
    company_id: i32,
    p: NormalizedPosting,
    now: Seq<char>,
    w: PostingWrite,
    id: i32,
)
    requires
        postings_are_distinct(rows),
        is_upsert(rows, company_id, p, now, w),
    ensures
        postings_are_distinct(written(rows, w, id)),
        first_hit(written(rows, w, id), is_posting_of(company_id, p.external_id@)) matches Some(m)
            && m.title == p.title && m.location == p.location && m.remote == Some(p.remote)
            && m.description == p.description && m.apply_url == p.apply_url && m.last_seen@ == now
            && m.closed_at is None,
        forall|q: posting::Model|
            q.key() != (company_id, p.external_id@) ==> (#[trigger] written(rows, w, id).contains(q)
                <==> rows.contains(q)),
{
    let hit = is_posting_of(company_id, p.external_id@);
    let after = written(rows, w, id);
    lemma_first_hit(rows, hit);
    lemma_first_hit(after, hit);
    match w {
        PostingWrite::Insert(d) => {
            assert(after.last() == d.row(id));
            assert(hit(after[rows.len() as int]));
            let m = first_hit(after, hit)->Some_0;
            let i = choose|i: int| 0 <= i < after.len() && after[i] == m;
            if i < rows.len() {
                assert(!hit(rows[i]));
            }
            assert forall|i: int, j: int| 0 <= i < j < after.len() implies (#[trigger] after[i]).key()
                != (#[trigger] after[j]).key() by {
                if j == rows.len() {
                    assert(!hit(rows[i]));
                }
            }
            assert forall|q: posting::Model|
                q.key() != (company_id, p.external_id@) implies (#[trigger] after.contains(q)
                <==> rows.contains(q)) by {
                if after.contains(q) {
                    let i = choose|i: int| 0 <= i < after.len() && after[i] == q;
                    assert(rows[i] == q);
                }
                if rows.contains(q) {
                    let i = choose|i: int| 0 <= i < rows.len() && rows[i] == q;
                    assert(after[i] == q);
                }
            }
        },
        PostingWrite::Update(u) => {
            let m = first_hit(rows, hit)->Some_0;
            let i = choose|i: int| 0 <= i < rows.len() && rows[i] == m;
            assert(u.key() == m.key());
            assert(after[i] == u);
            assert(hit(after[i]));
            let n = first_hit(after, hit)->Some_0;
            let j = choose|j: int| 0 <= j < after.len() && after[j] == n;
            assert(rows[j].key() == u.key() || after[j] == rows[j]);
            assert forall|i: int, j: int| 0 <= i < j < after.len() implies (#[trigger] after[i]).key()
                != (#[trigger] after[j]).key() by {
                assert(rows[i].key() == after[i].key());
                assert(rows[j].key() == after[j].key());
            }
            assert forall|q: posting::Model|
                q.key() != (company_id, p.external_id@) implies (#[trigger] after.contains(q)
                <==> rows.contains(q)) by {
                if after.contains(q) {
                    let i = choose|i: int| 0 <= i < after.len() && after[i] == q;
                    assert(rows[i] == q);
                }
                if rows.contains(q) {
                    let i = choose|i: int| 0 <= i < rows.len() && rows[i] == q;
                    assert(after[i] == q);
                }
            }
        },
    }
}

/// A posting that was upserted is refreshed, not inserted, the next time.
pub proof fn upserting_again_updates(
    rows: Seq<posting::Model>,
    company_id: i32,
    p: NormalizedPosting,
    now: Seq<char>,
    w: PostingWrite,
    id: i32,
    again: NormalizedPosting,
    later: Seq<char>,
    v: PostingWrite,
)
    requires
        postings_are_distinct(rows),
        is_upsert(rows, company_id, p, now, w),
        again.external_id@ == p.external_id@,
        is_upsert(written(rows, w, id), company_id, again, later, v),
    ensures
        v is Update,
{
    upsert_is_read_back(rows, company_id, p, now, w, id);
}

/// An upsert leaves when a posting was first seen, its triage result and its
/// dismissal as they are.
pub proof fn upsert_keeps_triage(
    before: posting::Model,
    after: posting::Model,
    p: NormalizedPosting,
    now: Seq<char>,
)
    requires
        is_refreshed(before, after, p, now),
    ensures
        after.id == before.id,
        after.key() == before.key(),
        after.first_seen == before.first_seen,
        after.score == before.score,
        after.score_reason == before.score_reason,
        after.flags == before.flags,
        after.triaged_at == before.triaged_at,
        after.dismissed_at == before.dismissed_at,
{
}

/// Closing stale postings leaves the postings of every company that was not
/// fetched as they are, and so does nothing if no company was fetched.
pub proof fn skipped_boards_stay_open(
    before: Seq<posting::Model>,
    after: Seq<posting::Model>,
    company_ids: Seq<i32>,
    cutoff: Seq<char>,
    now: Seq<char>,
)
    requires
        rows_changed(before, after, is_stale(company_ids, cutoff), is_closed(now)),
    ensures
        forall|i: int|
            0 <= i < before.len() && !company_ids.contains((#[trigger] before[i]).company_id)
                ==> after[i] == before[i],
        company_ids.len() == 0 ==> after == before,
{
    if company_ids.len() == 0 {
        assert(after =~= before);
    }
}

/// A posting that was seen at or after the cutoff stays open, and once the stale
/// postings are closed none is left to close.
pub proof fn closing_is_idempotent(
    before: Seq<posting::Model>,
    after: Seq<posting::Model>,
    company_ids: Seq<i32>,
    cutoff: Seq<char>,
    now: Seq<char>,
)
    requires
        rows_changed(before, after, is_stale(company_ids, cutoff), is_closed(now)),
    ensures
        forall|i: int|
            0 <= i < before.len() && text_le(cutoff, (#[trigger] before[i]).last_seen@)
                ==> after[i] == before[i],
        after.filter(is_stale(company_ids, cutoff)) == Seq::<posting::Model>::empty(),
{
    let stale = is_stale(company_ids, cutoff);
    assert forall|i: int|
        0 <= i < before.len() && text_le(
            cutoff,
            (#[trigger] before[i]).last_seen@,
        ) implies after[i] == before[i] by {
        if text_lt(before[i].last_seen@, cutoff) {
            text_le_is_antisymmetric(before[i].last_seen@, cutoff);
        }
    }
    assert(after.filter(stale).len() == 0) by {
        broadcast use vstd::seq_lib::group_filter_ensures;

        if after.filter(stale).len() > 0 {
            let x = after.filter(stale)[0];
            assert(after.filter(stale).contains(x));
            lemma_filtered(after, stale, x);
            let i = choose|i: int| 0 <= i < after.len() && after[i] == x;
            assert(!stale(after[i]));
        }
    }
}

/// Stale is a matter of time: with timestamps in the table, the open postings of the
/// fetched companies that close are those last seen before the instant of the cutoff.
pub proof fn stale_goes_by_time(
    p: posting::Model,
    seen: (int, int),
    company_ids: Seq<i32>,
    cutoff: Seq<char>,
    at: (int, int),
)
    requires
        sorts_as(cutoff, at),
        is_common(seen),
        p.last_seen@ == rfc3339_text(seen),
    ensures
        is_stale(company_ids, cutoff)(p) <==> p.closed_at is None && company_ids.contains(
            p.company_id,
        ) && is_before(seen, at),
{
}

/// A window is a matter of time: with timestamps in the table, the digest of a window
/// shows what it shows without one, but for the postings first seen before the window
/// starts.
pub proof fn window_goes_by_time(
    p: posting::Model,
    seen: (int, int),
    min_score: Option<i32>,
    cutoff: Seq<char>,
    at: (int, int),
)
    requires
        sorts_as(cutoff, at),
        is_common(seen),
        p.first_seen@ == rfc3339_text(seen),
    ensures
        is_shown(Some(cutoff), min_score)(p) <==> is_shown(None, min_score)(p) && !is_before(
            seen,
            at,
        ),
{
    text_le_is_total(cutoff, p.first_seen@);
    if text_le(cutoff, p.first_seen@) && text_le(p.first_seen@, cutoff) {
        text_le_is_antisymmetric(cutoff, p.first_seen@);
    }
}

/// A posting is scored once: with a result recorded, it is not among the postings
/// awaiting one.
pub proof fn triaged_is_not_sent_again(
    before: Seq<posting::Model>,
    after: Seq<posting::Model>,
    posting_id: i32,
    score: i32,
    reason: Seq<char>,
    flags_json: Seq<char>,
    now: Seq<char>,
)
    requires
        rows_changed(before, after, is_posting(posting_id), is_scored(score, reason, flags_json, now)),
    ensures
        forall|p: posting::Model| #[trigger]
            sorted(after.filter(is_untriaged()), by_first_seen()).contains(p) ==> p.id
                != posting_id,
{
    assert forall|p: posting::Model| #[trigger]
        sorted(after.filter(is_untriaged()), by_first_seen()).contains(p) implies p.id
        != posting_id by {
        sorting_keeps_membership(after.filter(is_untriaged()), by_first_seen(), p);
        lemma_filtered(after, is_untriaged(), p);
        let i = choose|i: int| 0 <= i < after.len() && after[i] == p;
        assert(after[i].id == before[i].id);
    }
}

/// Postings that got a result together are scored once too: none of them is among
/// the postings awaiting one.
pub proof fn bulk_triaged_is_not_sent_again(
    before: Seq<posting::Model>,
    after: Seq<posting::Model>,
    posting_ids: Seq<i32>,
    score: i32,
    reason: Seq<char>,
    flags_json: Seq<char>,
    now: Seq<char>,
)
    requires
        rows_changed(before, after, is_one_of(posting_ids), is_scored(score, reason, flags_json, now)),
    ensures
        forall|p: posting::Model| #[trigger]
            sorted(after.filter(is_untriaged()), by_first_seen()).contains(p)
                ==> !posting_ids.contains(p.id),
{
    assert forall|p: posting::Model| #[trigger]
        sorted(after.filter(is_untriaged()), by_first_seen()).contains(
            p,
        ) implies !posting_ids.contains(p.id) by {
        sorting_keeps_membership(after.filter(is_untriaged()), by_first_seen(), p);
        lemma_filtered(after, is_untriaged(), p);
        let i = choose|i: int| 0 <= i < after.len() && after[i] == p;
        assert(after[i].id == before[i].id);
    }
}

/// A refreshed posting that was scored stays scored: seeing a posting again does
/// not send it for scoring again.
pub proof fn refreshed_is_not_sent_again(
    before: posting::Model,
    after: posting::Model,
    p: NormalizedPosting,
    now: Seq<char>,
)
    requires
        is_refreshed(before, after, p, now),
        before.triaged_at is Some,
    ensures
        !is_untriaged()(after),
{
}

/// After a reset every open posting awaits a score again, and no closed posting
/// has changed.
pub proof fn reset_sends_all_open_again(before: Seq<posting::Model>, after: Seq<posting::Model>)
    requires
        rows_changed(before, after, is_triaged(), is_unscored()),
    ensures
        forall|i: int|
            0 <= i < after.len() && (#[trigger] after[i]).closed_at is None ==> is_untriaged()(
                after[i],
            ),
        forall|i: int|
            0 <= i < before.len() && (#[trigger] before[i]).closed_at is Some ==> after[i]
                == before[i],
{
    assert forall|i: int|
        0 <= i < after.len() && (#[trigger] after[i]).closed_at is None implies is_untriaged()(
        after[i],
    ) by {
        assert(is_triaged()(before[i]) || after[i] == before[i]);
    }
}

/// A dismissed posting is neither in the digest nor in the apply picker; its score
/// stays what it was, and restoring it brings back the posting as it was.
pub proof fn dismissing_hides_until_restored(
    p: posting::Model,
    hidden: posting::Model,
    restored: posting::Model,
    at: Seq<char>,
    since: Option<Seq<char>>,
    min_score: Option<i32>,
    applications: Seq<application::Model>,
)
    requires
        p.dismissed_at is None,
        is_dismissed(Some(at))(p, hidden),
        is_dismissed(None)(hidden, restored),
    ensures
        !is_shown(since, min_score)(hidden),
        !is_pickable(applications, min_score)(hidden),
        hidden.score == p.score,
        hidden.score_reason == p.score_reason,
        hidden.triaged_at == p.triaged_at,
        restored == p,
{
}

// ---------------------------------------------------------------------------
// Applications
// ---------------------------------------------------------------------------

/// A role is applied to once: when an application for the posting is stored, it
/// is the one found the next time, and the posting leaves the apply picker.
pub proof fn applying_again_finds_the_first(
    rows: Seq<application::Model>,
    posting_id: i32,
    now: Seq<char>,
    d: application::Draft,
    id: i32,
    p: posting::Model,
    min_score: Option<i32>,
)
    requires
        first_hit(rows, is_application_for(posting_id)) is None,
        is_new_application(d, posting_id, now),
        p.id == posting_id,
    ensures
        first_hit(rows.push(d.row(id)), is_application_for(posting_id)) == Some(d.row(id)),
        !is_pickable(rows.push(d.row(id)), min_score)(p),
{
    let hit = is_application_for(posting_id);
    let after = rows.push(d.row(id));
    lemma_first_hit(rows, hit);
    lemma_first_hit(after, hit);
    assert(hit(after[rows.len() as int]));
    let m = first_hit(after, hit)->Some_0;
    let i = choose|i: int| 0 <= i < after.len() && after[i] == m;
    if i < rows.len() {
        assert(!hit(rows[i]));
    }
    assert(has_applied(after, posting_id));
}

/// The apply picker offers what the digest shows, but for the postings that were
/// applied to.
pub proof fn picker_offers_the_digest(
    p: posting::Model,
    applications: Seq<application::Model>,
    min_score: Option<i32>,
)
    ensures
        is_pickable(applications, min_score)(p) <==> is_shown(None, min_score)(p) && !has_applied(
            applications,
            p.id,
        ),
{
}

/// When the only application for a posting is removed, the posting counts as not
/// applied to again.
pub proof fn untracking_undoes_applying(
    rows: Seq<application::Model>,
    app: application::Model,
)
    requires
        rows.contains(app),
        forall|i: int|
            0 <= i < rows.len() && (#[trigger] rows[i]).posting_id == app.posting_id ==> rows[i].id
                == app.id,
    ensures
        has_applied(rows, app.posting_id),
        !has_applied(rows.filter(|a: application::Model| a.id != app.id), app.posting_id),
{
    let k = choose|k: int| 0 <= k < rows.len() && rows[k] == app;
    assert(rows[k].posting_id == app.posting_id);
    let stays = |a: application::Model| a.id != app.id;
    let left = rows.filter(stays);
    if has_applied(left, app.posting_id) {
        let i = choose|i: int|
            0 <= i < left.len() && (#[trigger] left[i]).posting_id == app.posting_id;
        assert(left.contains(left[i]));
        lemma_filtered(rows, stays, left[i]);
        let j = choose|j: int| 0 <= j < rows.len() && rows[j] == left[i];
        assert(rows[j].posting_id == app.posting_id);
    }
}

/// An application moved to a stage is listed under that stage and no other, and
/// among the open ones unless it was rejected or ghosted.
pub proof fn moved_is_listed_at_its_stage(
    before: application::Model,
    after: application::Model,
    stage: Seq<char>,
    note: Option<Seq<char>>,
    now: Seq<char>,
    today: Seq<char>,
    asked: Seq<char>,
)
    requires
        is_moved(stage, note, now, today)(before, after),
    ensures
        is_listed(Some(asked))(after) <==> asked == stage,
        is_listed(None)(after) <==> stage != "rejected"@ && stage != "ghosted"@,
{
}

/// Moving an application leaves which posting it is for and when it was made as
/// they are, and touches no other application.
pub proof fn moving_keeps_the_others(
    before: Seq<application::Model>,
    after: Seq<application::Model>,
    app_id: i32,
    stage: Seq<char>,
    note: Option<Seq<char>>,
    now: Seq<char>,
    today: Seq<char>,
)
    requires
        rows_changed(before, after, is_application(app_id), is_moved(stage, note, now, today)),
    ensures
        after.len() == before.len(),
        forall|i: int|
            0 <= i < before.len() ==> (#[trigger] after[i]).id == before[i].id
                && after[i].posting_id == before[i].posting_id && after[i].applied_at
                == before[i].applied_at && (before[i].id != app_id ==> after[i] == before[i]),
{
}

} // verus!
