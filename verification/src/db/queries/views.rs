//! What the queries read and write, column by column.

use vstd::prelude::*;

use crate::db::entities::{application, company, posting};
use crate::db::queries::applications::{
    by_applied, is_application, is_application_for, is_listed, is_moved, is_new_application,
    joined, AppRow,
};
use crate::db::queries::companies::{
    by_board, by_name, has_board, is_company, listed, new_seeds, polled, reviewed, seed_draft,
    seed_key, touched, SeedCompany,
};
use crate::db::queries::laws::views_are_ordered;
use crate::db::queries::postings::{
    at_most, by_first_seen, by_rank, is_closed, is_dismissed, is_new_posting, is_one_of,
    is_pickable, is_posting, is_posting_of, is_refreshed, is_scored, is_shown, is_stale,
    is_triaged, is_unscored, is_untriaged, with_company,
};
use crate::db::tables::{first_hit, lemma_first_hit, rows_changed};
use crate::normalize::NormalizedPosting;
use crate::sorting::{
    sorted, sorting_keeps_membership, sorting_keeps_the_elements, sorting_puts_in_order,
};
use crate::text::opt_text;
use crate::text::order::{text_le, text_lt};

verus! {

/// What a filter keeps, in order.
proof fn lemma_kept<T>(rows: Seq<T>, keep: spec_fn(T) -> bool, leq: spec_fn(T, T) -> bool, x: T)
    ensures
        sorted(rows.filter(keep), leq).contains(x) <==> rows.contains(x) && keep(x),
{
    broadcast use vstd::seq_lib::group_filter_ensures;

    sorting_keeps_membership(rows.filter(keep), leq, x);
    if rows.filter(keep).contains(x) {
        let i = choose|i: int| 0 <= i < rows.filter(keep).len() && rows.filter(keep)[i] == x;
        rows.lemma_filter_contains_rev(keep, rows.filter(keep)[i]);
    }
}

// ---------------------------------------------------------------------------
// The digest and the picker
// ---------------------------------------------------------------------------

/// A posting is in the digest exactly when it is stored, open, not dismissed, first seen
/// no earlier than the window starts, and scored at least as high as asked for. Without a
/// threshold the score does not matter; with one, a posting without a score is left out.
pub proof fn the_digest_shows_open_postings(
    rows: Seq<posting::Model>,
    since: Option<Seq<char>>,
    min_score: Option<i32>,
    p: posting::Model,
)
    ensures
        sorted(rows.filter(is_shown(since, min_score)), by_rank()).contains(p) <==> {
            &&& rows.contains(p)
            &&& p.closed_at is None
            &&& p.dismissed_at is None
            &&& since is Some ==> text_le(since->Some_0, p.first_seen@)
            &&& min_score is Some ==> p.score is Some && p.score->Some_0 >= min_score->Some_0
        },
{
    lemma_kept(rows, is_shown(since, min_score), by_rank(), p);
}

/// A posting is in the picker exactly when the digest without a window shows it and no
/// application for it is stored.
pub proof fn the_picker_shows_open_postings(
    rows: Seq<posting::Model>,
    applications: Seq<application::Model>,
    min_score: Option<i32>,
    p: posting::Model,
)
    ensures
        sorted(rows.filter(is_pickable(applications, min_score)), by_rank()).contains(p) <==> {
            &&& rows.contains(p)
            &&& p.closed_at is None
            &&& p.dismissed_at is None
            &&& min_score is Some ==> p.score is Some && p.score->Some_0 >= min_score->Some_0
            &&& forall|i: int|
                0 <= i < applications.len() ==> (#[trigger] applications[i]).posting_id != p.id
        },
{
    lemma_kept(rows, is_pickable(applications, min_score), by_rank(), p);
}

/// Higher scores come first, postings without a score last, and of one score the newest
/// comes first. No posting is shown more often than it is stored.
pub proof fn higher_scores_come_first(
    rows: Seq<posting::Model>,
    keep: spec_fn(posting::Model) -> bool,
)
    ensures
        ({
            let shown = sorted(rows.filter(keep), by_rank());
            &&& shown.to_multiset() == rows.filter(keep).to_multiset()
            &&& forall|i: int, j: int|
                0 <= i < j < shown.len() && (#[trigger] shown[j]).score is Some ==> (
                #[trigger] shown[i]).score is Some && shown[i].score->Some_0
                    >= shown[j].score->Some_0
            &&& forall|i: int, j: int|
                0 <= i < j < shown.len() && (#[trigger] shown[i]).score == (
                #[trigger] shown[j]).score ==> text_le(shown[j].first_seen@, shown[i].first_seen@)
        }),
{
    let kept = rows.filter(keep);
    views_are_ordered();
    sorting_puts_in_order(kept, by_rank());
    sorting_keeps_the_elements(kept, by_rank());
    let shown = sorted(kept, by_rank());
    assert forall|i: int, j: int|
        0 <= i < j < shown.len() && (#[trigger] shown[j]).score is Some implies (
    #[trigger] shown[i]).score is Some && shown[i].score->Some_0 >= shown[j].score->Some_0 by {
        assert(by_rank()(shown[i], shown[j]));
    }
    assert forall|i: int, j: int|
        0 <= i < j < shown.len() && (#[trigger] shown[i]).score == (
        #[trigger] shown[j]).score implies text_le(shown[j].first_seen@, shown[i].first_seen@) by {
        assert(by_rank()(shown[i], shown[j]));
    }
}

/// A posting is paired with the stored company that it belongs to, or with none if that
/// company is not stored.
pub proof fn postings_are_paired_with_their_company(
    companies: Seq<company::Model>,
    p: posting::Model,
)
    ensures
        with_company(companies)(p).0 == p,
        with_company(companies)(p).1 matches Some(c) ==> companies.contains(c) && c.id
            == p.company_id,
        with_company(companies)(p).1 is None ==> forall|i: int|
            0 <= i < companies.len() ==> (#[trigger] companies[i]).id != p.company_id,
{
    lemma_first_hit(companies, is_company(p.company_id));
    if with_company(companies)(p).1 is None {
        assert forall|i: int| 0 <= i < companies.len() implies (#[trigger] companies[i]).id
            != p.company_id by {
            assert(!is_company(p.company_id)(companies[i]));
        }
    }
}

/// A posting is found under its id.
pub proof fn postings_are_found_by_id(rows: Seq<posting::Model>, id: i32)
    ensures
        first_hit(rows, is_posting(id)) matches Some(p) ==> rows.contains(p) && p.id == id,
        first_hit(rows, is_posting(id)) is None ==> forall|i: int|
            0 <= i < rows.len() ==> (#[trigger] rows[i]).id != id,
{
    lemma_first_hit(rows, is_posting(id));
    if first_hit(rows, is_posting(id)) is None {
        assert forall|i: int| 0 <= i < rows.len() implies (#[trigger] rows[i]).id != id by {
            assert(!is_posting(id)(rows[i]));
        }
    }
}

// ---------------------------------------------------------------------------
// Triage
// ---------------------------------------------------------------------------

/// A posting awaits a score exactly when it is stored, open and carries no triage stamp;
/// the oldest come first.
pub proof fn open_postings_without_a_stamp_await_a_score(
    rows: Seq<posting::Model>,
    p: posting::Model,
)
    ensures
        sorted(rows.filter(is_untriaged()), by_first_seen()).contains(p) <==> rows.contains(p)
            && p.triaged_at is None && p.closed_at is None,
        ({
            let waiting = sorted(rows.filter(is_untriaged()), by_first_seen());
            &&& waiting.to_multiset() == rows.filter(is_untriaged()).to_multiset()
            &&& forall|i: int, j: int|
                0 <= i < j < waiting.len() ==> text_le(
                    (#[trigger] waiting[i]).first_seen@,
                    (#[trigger] waiting[j]).first_seen@,
                )
        }),
{
    lemma_kept(rows, is_untriaged(), by_first_seen(), p);
    let kept = rows.filter(is_untriaged());
    views_are_ordered();
    sorting_puts_in_order(kept, by_first_seen());
    sorting_keeps_the_elements(kept, by_first_seen());
    let waiting = sorted(kept, by_first_seen());
    assert forall|i: int, j: int| 0 <= i < j < waiting.len() implies text_le(
        (#[trigger] waiting[i]).first_seen@,
        (#[trigger] waiting[j]).first_seen@,
    ) by {
        assert(by_first_seen()(waiting[i], waiting[j]));
    }
}

/// A limit keeps the first of a list, as many as it says, and all if there are no more.
pub proof fn limits_keep_the_first<T>(s: Seq<T>, limit: Option<u64>)
    ensures
        at_most(s, limit).is_prefix_of(s),
        limit matches Some(n) ==> at_most(s, limit).len() == if n < s.len() {
            n as nat
        } else {
            s.len()
        },
        limit is None ==> at_most(s, limit) == s,
{
    match limit {
        Some(n) => {
            if n < s.len() {
                assert(s.take(n as int) =~= s.subrange(0, n as int));
            }
        },
        None => {},
    }
}

/// A recorded result is read back from the posting with the id: score, reason, flags and
/// stamp. Everything else of it stays, and so does every other posting.
pub proof fn results_are_read_back(
    before: Seq<posting::Model>,
    after: Seq<posting::Model>,
    id: i32,
    score: i32,
    reason: Seq<char>,
    flags_json: Seq<char>,
    now: Seq<char>,
    i: int,
)
    requires
        rows_changed(before, after, is_posting(id), is_scored(score, reason, flags_json, now)),
        0 <= i < before.len(),
    ensures
        after.len() == before.len(),
        before[i].id != id ==> after[i] == before[i],
        before[i].id == id ==> after[i].score == Some(score) && opt_text(after[i].score_reason)
            == Some(reason) && opt_text(after[i].flags) == Some(flags_json) && opt_text(
            after[i].triaged_at,
        ) == Some(now),
        before[i].id == id ==> after[i] == (posting::Model {
            score: after[i].score,
            score_reason: after[i].score_reason,
            flags: after[i].flags,
            triaged_at: after[i].triaged_at,
            ..before[i]
        }),
{
}

/// A result recorded for several postings is read back from each of them, and every
/// other posting stays.
pub proof fn shared_results_are_read_back(
    before: Seq<posting::Model>,
    after: Seq<posting::Model>,
    ids: Seq<i32>,
    score: i32,
    reason: Seq<char>,
    flags_json: Seq<char>,
    now: Seq<char>,
    i: int,
)
    requires
        rows_changed(before, after, is_one_of(ids), is_scored(score, reason, flags_json, now)),
        0 <= i < before.len(),
    ensures
        after.len() == before.len(),
        !ids.contains(before[i].id) ==> after[i] == before[i],
        ids.contains(before[i].id) ==> after[i].score == Some(score) && opt_text(
            after[i].score_reason,
        ) == Some(reason) && opt_text(after[i].flags) == Some(flags_json) && opt_text(
            after[i].triaged_at,
        ) == Some(now) && after[i].id == before[i].id && after[i].title == before[i].title
            && after[i].closed_at == before[i].closed_at,
{
}

/// A reset clears score, reason, flags and stamp of the open postings that carry a stamp,
/// and nothing else.
pub proof fn resets_clear_the_results(
    before: Seq<posting::Model>,
    after: Seq<posting::Model>,
    i: int,
)
    requires
        rows_changed(before, after, is_triaged(), is_unscored()),
        0 <= i < before.len(),
    ensures
        after.len() == before.len(),
        before[i].triaged_at is Some && before[i].closed_at is None ==> after[i] == (posting::Model {
            score: None,
            score_reason: None,
            flags: None,
            triaged_at: None,
            ..before[i]
        }),
        before[i].triaged_at is None || before[i].closed_at is Some ==> after[i] == before[i],
{
}

// ---------------------------------------------------------------------------
// Storing postings
// ---------------------------------------------------------------------------

/// A posting is looked up by its company and the board's id for it, both of them.
pub proof fn postings_are_kept_by_company_and_board_id(
    p: posting::Model,
    company_id: i32,
    external_id: Seq<char>,
)
    ensures
        is_posting_of(company_id, external_id)(p) <==> p.company_id == company_id
            && p.external_id@ == external_id,
{
}

/// A new posting is stored as the board lists it, first and last seen now, open and
/// without a score.
pub proof fn new_postings_are_stored_as_listed(
    d: posting::Draft,
    id: i32,
    company_id: i32,
    p: NormalizedPosting,
    now: Seq<char>,
)
    requires
        is_new_posting(d, company_id, p, now),
    ensures
        d.row(id).id == id,
        d.row(id).company_id == company_id,
        d.row(id).external_id == p.external_id,
        d.row(id).title == p.title,
        d.row(id).location == p.location,
        d.row(id).remote == Some(p.remote),
        d.row(id).description == p.description,
        d.row(id).apply_url == p.apply_url,
        d.row(id).first_seen@ == now,
        d.row(id).last_seen@ == now,
        d.row(id).closed_at is None,
        d.row(id).score is None,
        d.row(id).score_reason is None,
        d.row(id).flags is None,
        d.row(id).triaged_at is None,
        d.row(id).dismissed_at is None,
{
}

/// A stored posting that is listed again takes what the board says now, is last seen now
/// and open again; everything else stays.
pub proof fn listed_postings_are_refreshed(
    before: posting::Model,
    after: posting::Model,
    p: NormalizedPosting,
    now: Seq<char>,
)
    requires
        is_refreshed(before, after, p, now),
    ensures
        after.title == p.title,
        after.location == p.location,
        after.remote == Some(p.remote),
        after.description == p.description,
        after.apply_url == p.apply_url,
        after.last_seen@ == now,
        after.closed_at is None,
        after.id == before.id,
        after.company_id == before.company_id,
        after.external_id == before.external_id,
        after.first_seen == before.first_seen,
        after.score == before.score,
        after.score_reason == before.score_reason,
        after.flags == before.flags,
        after.triaged_at == before.triaged_at,
        after.dismissed_at == before.dismissed_at,
{
}

/// A posting is closed exactly when it is open, its company was fetched and it was last
/// seen before the cutoff. Closing stamps the time and leaves everything else.
pub proof fn stale_postings_are_closed(
    before: Seq<posting::Model>,
    after: Seq<posting::Model>,
    company_ids: Seq<i32>,
    cutoff: Seq<char>,
    now: Seq<char>,
    i: int,
)
    requires
        rows_changed(before, after, is_stale(company_ids, cutoff), is_closed(now)),
        0 <= i < before.len(),
    ensures
        after.len() == before.len(),
        before[i].closed_at is None && company_ids.contains(before[i].company_id) && text_lt(
            before[i].last_seen@,
            cutoff,
        ) ==> opt_text(after[i].closed_at) == Some(now) && after[i] == (posting::Model {
            closed_at: after[i].closed_at,
            ..before[i]
        }),
        before[i].closed_at is Some || !company_ids.contains(before[i].company_id) || !text_lt(
            before[i].last_seen@,
            cutoff,
        ) ==> after[i] == before[i],
{
}

/// Dismissing stamps the posting with the id, restoring takes the stamp away, and nothing
/// else changes.
pub proof fn dismissals_are_stamped(
    before: Seq<posting::Model>,
    after: Seq<posting::Model>,
    id: i32,
    at: Option<Seq<char>>,
    i: int,
)
    requires
        rows_changed(before, after, is_posting(id), is_dismissed(at)),
        0 <= i < before.len(),
    ensures
        after.len() == before.len(),
        before[i].id != id ==> after[i] == before[i],
        before[i].id == id ==> opt_text(after[i].dismissed_at) == at && after[i] == (
        posting::Model { dismissed_at: after[i].dismissed_at, ..before[i] }),
{
}

// ---------------------------------------------------------------------------
// Applications
// ---------------------------------------------------------------------------

/// A new application is stored for the posting, made now, at the first stage, without
/// contact or notes.
pub proof fn applications_start_as_applied(
    d: application::Draft,
    id: i32,
    posting_id: i32,
    now: Seq<char>,
)
    requires
        is_new_application(d, posting_id, now),
    ensures
        d.row(id).id == id,
        d.row(id).posting_id == posting_id,
        d.row(id).applied_at@ == now,
        d.row(id).stage@ == "applied"@,
        d.row(id).last_contact is None,
        d.row(id).next_followup is None,
        d.row(id).notes is None,
{
}

/// The application that is found for a posting is one for it, and the application found
/// under an id has it.
pub proof fn applications_are_found(rows: Seq<application::Model>, id: i32)
    ensures
        first_hit(rows, is_application_for(id)) matches Some(a) ==> rows.contains(a) && a.posting_id
            == id,
        first_hit(rows, is_application_for(id)) is None ==> forall|i: int|
            0 <= i < rows.len() ==> (#[trigger] rows[i]).posting_id != id,
        first_hit(rows, is_application(id)) matches Some(a) ==> rows.contains(a) && a.id == id,
        first_hit(rows, is_application(id)) is None ==> forall|i: int|
            0 <= i < rows.len() ==> (#[trigger] rows[i]).id != id,
{
    lemma_first_hit(rows, is_application_for(id));
    lemma_first_hit(rows, is_application(id));
    if first_hit(rows, is_application_for(id)) is None {
        assert forall|i: int| 0 <= i < rows.len() implies (#[trigger] rows[i]).posting_id
            != id by {
            assert(!is_application_for(id)(rows[i]));
        }
    }
    if first_hit(rows, is_application(id)) is None {
        assert forall|i: int| 0 <= i < rows.len() implies (#[trigger] rows[i]).id != id by {
            assert(!is_application(id)(rows[i]));
        }
    }
}

/// The list of applications holds those at the stage that is asked for, or all that are
/// neither rejected nor ghosted, the newest first.
pub proof fn applications_are_listed_by_stage(
    rows: Seq<application::Model>,
    stage: Option<Seq<char>>,
    a: application::Model,
)
    ensures
        stage is Some ==> (sorted(rows.filter(is_listed(stage)), by_applied()).contains(a)
            <==> rows.contains(a) && a.stage@ == stage->Some_0),
        stage is None ==> (sorted(rows.filter(is_listed(stage)), by_applied()).contains(a)
            <==> rows.contains(a) && a.stage@ != "rejected"@ && a.stage@ != "ghosted"@),
        ({
            let shown = sorted(rows.filter(is_listed(stage)), by_applied());
            &&& shown.to_multiset() == rows.filter(is_listed(stage)).to_multiset()
            &&& forall|i: int, j: int|
                0 <= i < j < shown.len() ==> text_le(
                    (#[trigger] shown[j]).applied_at@,
                    (#[trigger] shown[i]).applied_at@,
                )
        }),
{
    lemma_kept(rows, is_listed(stage), by_applied(), a);
    let kept = rows.filter(is_listed(stage));
    views_are_ordered();
    sorting_puts_in_order(kept, by_applied());
    sorting_keeps_the_elements(kept, by_applied());
    let shown = sorted(kept, by_applied());
    assert forall|i: int, j: int| 0 <= i < j < shown.len() implies text_le(
        (#[trigger] shown[j]).applied_at@,
        (#[trigger] shown[i]).applied_at@,
    ) by {
        assert(by_applied()(shown[i], shown[j]));
    }
}

/// An application is shown with its posting and that posting's company, as far as they
/// are stored.
pub proof fn applications_are_shown_with_their_posting(
    postings: Seq<posting::Model>,
    companies: Seq<company::Model>,
    a: application::Model,
)
    ensures
        ({
            let row: AppRow = joined(postings, companies)(a);
            &&& row.0 == a
            &&& row.1 matches Some(p) ==> postings.contains(p) && p.id == a.posting_id
            &&& row.1 is None ==> row.2 is None && forall|i: int|
                0 <= i < postings.len() ==> (#[trigger] postings[i]).id != a.posting_id
            &&& row.2 matches Some(c) ==> companies.contains(c) && row.1 is Some && c.id
                == row.1->Some_0.company_id
            &&& row.1 is Some && row.2 is None ==> forall|i: int|
                0 <= i < companies.len() ==> (#[trigger] companies[i]).id
                    != row.1->Some_0.company_id
        }),
{
    postings_are_found_by_id(postings, a.posting_id);
    match first_hit(postings, is_posting(a.posting_id)) {
        Some(p) => {
            postings_are_paired_with_their_company(companies, p);
        },
        None => {},
    }
}

/// Moving an application sets its stage and the time of contact, and appends a dated note
/// if one is given: earlier notes stay in front of it, on lines of their own. Everything
/// else stays.
pub proof fn moves_are_recorded(
    before: application::Model,
    after: application::Model,
    stage: Seq<char>,
    note: Option<Seq<char>>,
    now: Seq<char>,
    today: Seq<char>,
)
    requires
        is_moved(stage, note, now, today)(before, after),
    ensures
        after.stage@ == stage,
        opt_text(after.last_contact) == Some(now),
        after.id == before.id,
        after.posting_id == before.posting_id,
        after.applied_at == before.applied_at,
        after.next_followup == before.next_followup,
        note is None ==> after.notes == before.notes,
        note matches Some(n) ==> (before.notes matches Some(old) ==> (old@.len() > 0 ==> opt_text(
            after.notes,
        ) == Some(old@ + "\n["@ + today + "] "@ + n))),
        note matches Some(n) ==> ((before.notes matches Some(old) ==> old@.len() == 0) ==> opt_text(
            after.notes,
        ) == Some("["@ + today + "] "@ + n)),
{
}

/// Only the application with the id is moved.
pub proof fn only_the_application_moves(
    before: Seq<application::Model>,
    after: Seq<application::Model>,
    id: i32,
    stage: Seq<char>,
    note: Option<Seq<char>>,
    now: Seq<char>,
    today: Seq<char>,
    i: int,
)
    requires
        rows_changed(before, after, is_application(id), is_moved(stage, note, now, today)),
        0 <= i < before.len(),
    ensures
        before[i].id != id ==> after[i] == before[i],
        before[i].id == id ==> after[i].stage@ == stage,
{
}

// ---------------------------------------------------------------------------
// Companies
// ---------------------------------------------------------------------------

/// A board is known by its system and its slug, both of them.
pub proof fn boards_are_known_by_system_and_slug(
    rows: Seq<company::Model>,
    ats: Seq<char>,
    slug: Seq<char>,
)
    ensures
        has_board(rows, (ats, slug)) <==> exists|i: int|
            0 <= i < rows.len() && (#[trigger] rows[i]).ats@ == ats && rows[i].slug@ == slug,
{
    if has_board(rows, (ats, slug)) {
        let i = choose|i: int| 0 <= i < rows.len() && (#[trigger] rows[i]).key() == (ats, slug);
        assert(rows[i].ats@ == ats && rows[i].slug@ == slug);
    }
    if exists|i: int| 0 <= i < rows.len() && (#[trigger] rows[i]).ats@ == ats && rows[i].slug@ == slug {
        let i = choose|i: int|
            0 <= i < rows.len() && (#[trigger] rows[i]).ats@ == ats && rows[i].slug@ == slug;
        assert(rows[i].key() == (ats, slug));
    }
}

/// A seed is stored with what the list says of it, active, not flagged and never fetched.
pub proof fn seeds_are_stored_as_listed(s: SeedCompany, id: i32)
    ensures
        seed_key(s) == (s.ats@, s.slug@),
        seed_draft(s).row(id).id == id,
        seed_draft(s).row(id).name == s.name,
        seed_draft(s).row(id).ats == s.ats,
        seed_draft(s).row(id).slug == s.slug,
        seed_draft(s).row(id).careers_url == s.careers_url,
        seed_draft(s).row(id).tags == s.tags,
        seed_draft(s).row(id).active == 1,
        seed_draft(s).row(id).needs_review == 0,
        seed_draft(s).row(id).last_fetched is None,
{
}

/// A further seed is inserted exactly when its board is neither stored nor named by a
/// seed before it; the seeds before it are not affected.
pub proof fn seeds_are_inserted_once(
    rows: Seq<company::Model>,
    seeds: Seq<SeedCompany>,
    s: SeedCompany,
)
    ensures
        ({
            let known = (exists|i: int|
                0 <= i < rows.len() && (#[trigger] rows[i]).ats@ == s.ats@ && rows[i].slug@
                    == s.slug@) || (exists|j: int|
                0 <= j < seeds.len() && (#[trigger] seeds[j]).ats@ == s.ats@ && seeds[j].slug@
                    == s.slug@);
            new_seeds(rows, seeds.push(s)) == if known {
                new_seeds(rows, seeds)
            } else {
                new_seeds(rows, seeds).push(s)
            }
        }),
        new_seeds(rows, Seq::empty()) == Seq::<SeedCompany>::empty(),
{
    let all = seeds.push(s);
    assert(all.drop_last() =~= seeds);
    boards_are_known_by_system_and_slug(rows, s.ats@, s.slug@);
    let n = seeds.len() as int;
    assert(all[n] == s);
    if exists|j: int|
        0 <= j < seeds.len() && (#[trigger] seeds[j]).ats@ == s.ats@ && seeds[j].slug@ == s.slug@ {
        let j = choose|j: int|
            0 <= j < seeds.len() && (#[trigger] seeds[j]).ats@ == s.ats@ && seeds[j].slug@
                == s.slug@;
        assert(seed_key(all[j]) == seed_key(s));
    } else {
        assert forall|j: int| 0 <= j < n implies seed_key(#[trigger] all[j]) != seed_key(s) by {
            assert(all[j] == seeds[j]);
        }
    }
}

/// The company list holds every company, or those flagged for review, by system and of
/// one system by name.
pub proof fn companies_are_listed(
    rows: Seq<company::Model>,
    needs_review_only: bool,
    c: company::Model,
)
    ensures
        sorted(rows.filter(listed(needs_review_only)), by_board()).contains(c) <==> rows.contains(c)
            && (needs_review_only ==> c.needs_review == 1),
        ({
            let shown = sorted(rows.filter(listed(needs_review_only)), by_board());
            &&& shown.to_multiset() == rows.filter(listed(needs_review_only)).to_multiset()
            &&& forall|i: int, j: int|
                0 <= i < j < shown.len() ==> text_le(
                    (#[trigger] shown[i]).ats@,
                    (#[trigger] shown[j]).ats@,
                )
            &&& forall|i: int, j: int|
                0 <= i < j < shown.len() && (#[trigger] shown[i]).ats@ == (
                #[trigger] shown[j]).ats@ ==> text_le(shown[i].name@, shown[j].name@)
        }),
{
    lemma_kept(rows, listed(needs_review_only), by_board(), c);
    let kept = rows.filter(listed(needs_review_only));
    views_are_ordered();
    sorting_puts_in_order(kept, by_board());
    sorting_keeps_the_elements(kept, by_board());
    let shown = sorted(kept, by_board());
    assert forall|i: int, j: int| 0 <= i < j < shown.len() implies text_le(
        (#[trigger] shown[i]).ats@,
        (#[trigger] shown[j]).ats@,
    ) by {
        assert(by_board()(shown[i], shown[j]));
        crate::text::order::text_le_is_total(shown[i].ats@, shown[j].ats@);
    }
    assert forall|i: int, j: int|
        0 <= i < j < shown.len() && (#[trigger] shown[i]).ats@ == (
        #[trigger] shown[j]).ats@ implies text_le(shown[i].name@, shown[j].name@) by {
        assert(by_board()(shown[i], shown[j]));
    }
}

/// The companies that are polled are the active ones, of one system or of all, by name.
pub proof fn active_companies_are_polled(
    rows: Seq<company::Model>,
    only_ats: Option<Seq<char>>,
    c: company::Model,
)
    ensures
        sorted(rows.filter(polled(only_ats)), by_name()).contains(c) <==> rows.contains(c)
            && c.active == 1 && (only_ats is Some ==> c.ats@ == only_ats->Some_0),
        ({
            let shown = sorted(rows.filter(polled(only_ats)), by_name());
            &&& shown.to_multiset() == rows.filter(polled(only_ats)).to_multiset()
            &&& forall|i: int, j: int|
                0 <= i < j < shown.len() ==> text_le(
                    (#[trigger] shown[i]).name@,
                    (#[trigger] shown[j]).name@,
                )
        }),
{
    lemma_kept(rows, polled(only_ats), by_name(), c);
    let kept = rows.filter(polled(only_ats));
    views_are_ordered();
    sorting_puts_in_order(kept, by_name());
    sorting_keeps_the_elements(kept, by_name());
    let shown = sorted(kept, by_name());
    assert forall|i: int, j: int| 0 <= i < j < shown.len() implies text_le(
        (#[trigger] shown[i]).name@,
        (#[trigger] shown[j]).name@,
    ) by {
        assert(by_name()(shown[i], shown[j]));
    }
}

/// Flagging a company for review and stamping its fetch change that column of that
/// company, and nothing else.
pub proof fn companies_are_stamped(
    before: Seq<company::Model>,
    after: Seq<company::Model>,
    id: i32,
    now: Seq<char>,
    i: int,
)
    requires
        0 <= i < before.len(),
    ensures
        rows_changed(before, after, is_company(id), reviewed()) ==> after.len() == before.len()
            && after[i] == (if before[i].id == id {
            company::Model { needs_review: 1, ..before[i] }
        } else {
            before[i]
        }),
        rows_changed(before, after, is_company(id), touched(now)) ==> after.len() == before.len()
            && (before[i].id != id ==> after[i] == before[i]) && (before[i].id == id ==> opt_text(
            after[i].last_fetched,
        ) == Some(now) && after[i] == (company::Model {
            last_fetched: after[i].last_fetched,
            ..before[i]
        })),
{
}

} // verus!
