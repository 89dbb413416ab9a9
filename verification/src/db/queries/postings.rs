//! The postings: storing what a board lists, closing what it dropped, recording
//! scores, and choosing what the digest and the apply picker show.

use vstd::prelude::*;

use crate::db::entities::{application, company, posting, Row};
use crate::db::queries::companies::is_company;
use crate::db::tables::{change_rows, find_row, first_hit, rows_changed, select_rows};
use crate::normalize::NormalizedPosting;
use crate::sorting::{sort_rows, sorted};
use crate::text::order::{le_text, lt_text, text_le, text_lt};
use crate::text::{copy_opt, opt_str, opt_text, same_text};

verus! {

/// Whether an upsert created a new row or refreshed an existing one.
#[derive(Debug, Clone, Copy, PartialEq, Eq, Structural)]
pub enum UpsertOutcome {
    Inserted,
    Updated,
}

/// The write that an upsert asks for.
#[derive(Debug, Clone)]
pub enum PostingWrite {
    Insert(posting::Draft),
    Update(posting::Model),
}

impl PostingWrite {
    /// What the write amounts to.
    pub fn outcome(&self) -> (r: UpsertOutcome)
        ensures
            r == (if self is Insert {
                UpsertOutcome::Inserted
            } else {
                UpsertOutcome::Updated
            }),
    {
        match self {
            PostingWrite::Insert(_) => UpsertOutcome::Inserted,
            PostingWrite::Update(_) => UpsertOutcome::Updated,
        }
    }
}

// ---------------------------------------------------------------------------
// Storing
// ---------------------------------------------------------------------------

/// The posting of a company under the board's id.
pub open spec fn is_posting_of(company_id: i32, external_id: Seq<char>) -> spec_fn(
    posting::Model,
) -> bool {
    |p: posting::Model| p.key() == (company_id, external_id)
}

/// A new posting: first and last seen now.
pub open spec fn is_new_posting(
    d: posting::Draft,
    company_id: i32,
    p: NormalizedPosting,
    now: Seq<char>,
) -> bool {
    &&& d == (posting::Draft {
        company_id,
        external_id: p.external_id,
        title: p.title,
        location: p.location,
        remote: Some(p.remote),
        description: p.description,
        apply_url: p.apply_url,
        first_seen: d.first_seen,
        last_seen: d.last_seen,
    })
    &&& d.first_seen@ == now
    &&& d.last_seen@ == now
}

/// A stored posting that was listed again: what the board says is refreshed, it
/// is last seen now and open again, and everything else is as it was.
pub open spec fn is_refreshed(
    before: posting::Model,
    after: posting::Model,
    p: NormalizedPosting,
    now: Seq<char>,
) -> bool {
    &&& after == (posting::Model {
        title: p.title,
        location: p.location,
        remote: Some(p.remote),
        description: p.description,
        apply_url: p.apply_url,
        last_seen: after.last_seen,
        closed_at: None,
        ..before
    })
    &&& after.last_seen@ == now
}

/// Upsert one normalized posting. A posting that is not stored yet is inserted
/// with `first_seen = last_seen = now`; a stored one has its volatile fields and
/// `last_seen` refreshed and any prior `closed_at` cleared, since the role
/// reappeared. `first_seen`, `score` and the triage columns are not touched.
pub fn upsert_posting(
    rows: &Vec<posting::Model>,
    company_id: i32,
    p: &NormalizedPosting,
    now: &str,
) -> (r: PostingWrite)
    ensures
        match first_hit(rows@, is_posting_of(company_id, p.external_id@)) {
            Some(m) => r matches PostingWrite::Update(u) && is_refreshed(m, u, *p, now@),
            None => r matches PostingWrite::Insert(d) && is_new_posting(d, company_id, *p, now@),
        },
{
    let hit = |m: &posting::Model| -> (b: bool)
        ensures
            b == is_posting_of(company_id, p.external_id@)(*m),
    {
        m.company_id == company_id && same_text(m.external_id.as_str(), p.external_id.as_str())
    };
    match find_row(rows, hit, Ghost(is_posting_of(company_id, p.external_id@))) {
        Some(m) => {
            let mut u = m;
            u.title = p.title.clone();
            u.location = copy_opt(&p.location);
            u.remote = Some(p.remote.clone());
            u.description = p.description.clone();
            u.apply_url = p.apply_url.clone();
            u.last_seen = now.to_owned();
            u.closed_at = None;
            PostingWrite::Update(u)
        },
        None => PostingWrite::Insert(
            posting::Draft {
                company_id,
                external_id: p.external_id.clone(),
                title: p.title.clone(),
                location: copy_opt(&p.location),
                remote: Some(p.remote.clone()),
                description: p.description.clone(),
                apply_url: p.apply_url.clone(),
                first_seen: now.to_owned(),
                last_seen: now.to_owned(),
            },
        ),
    }
}

/// Whether the id is in the list.
pub(crate) fn has_id(ids: &Vec<i32>, id: i32) -> (r: bool)
    ensures
        r == ids@.contains(id),
{
    let mut i: usize = 0;
    while i < ids.len()
        invariant
            i <= ids.len(),
            forall|k: int| 0 <= k < i ==> ids@[k] != id,
        decreases ids.len() - i,
    {
        if ids[i] == id {
            return true;
        }
        i += 1;
    }
    false
}

/// The open postings of the fetched companies that were last seen before the
/// cutoff.
pub open spec fn is_stale(company_ids: Seq<i32>, cutoff: Seq<char>) -> spec_fn(
    posting::Model,
) -> bool {
    |p: posting::Model|
        p.closed_at is None && text_lt(p.last_seen@, cutoff) && company_ids.contains(p.company_id)
}

/// A posting closed now.
pub open spec fn is_closed(now: Seq<char>) -> spec_fn(posting::Model, posting::Model) -> bool {
    |before: posting::Model, after: posting::Model|
        {
            &&& after == (posting::Model { closed_at: after.closed_at, ..before })
            &&& opt_text(after.closed_at) == Some(now)
        }
}

/// Mark postings closed when they have fallen behind the cutoff. Only postings of
/// the companies fetched in this run are looked at, so a skipped board does not
/// close everything under it. Returns the number of postings closed.
pub fn close_stale_postings(
    rows: &mut Vec<posting::Model>,
    company_ids: &Vec<i32>,
    cutoff: &str,
    now: &str,
) -> (n: u64)
    ensures
        rows_changed(old(rows)@, final(rows)@, is_stale(company_ids@, cutoff@), is_closed(now@)),
        n == old(rows)@.filter(is_stale(company_ids@, cutoff@)).len(),
{
    let hit = |p: &posting::Model| -> (b: bool)
        ensures
            b == is_stale(company_ids@, cutoff@)(*p),
    {
        p.closed_at.is_none() && lt_text(p.last_seen.as_str(), cutoff) && has_id(
            company_ids,
            p.company_id,
        )
    };
    let edit = |p: &posting::Model| -> (r: posting::Model)
        ensures
            is_closed(now@)(*p, r),
    {
        let mut r = p.copy();
        r.closed_at = Some(now.to_owned());
        r
    };
    change_rows(rows, hit, edit, Ghost(is_stale(company_ids@, cutoff@)), Ghost(is_closed(now@)))
}

// ---------------------------------------------------------------------------
// Triage
// ---------------------------------------------------------------------------

/// The open postings that carry no triage stamp.
pub open spec fn is_untriaged() -> spec_fn(posting::Model) -> bool {
    |p: posting::Model| p.triaged_at is None && p.closed_at is None
}

/// Postings in the order in which they were first seen.
pub open spec fn by_first_seen() -> spec_fn(posting::Model, posting::Model) -> bool {
    |a: posting::Model, b: posting::Model| text_le(a.first_seen@, b.first_seen@)
}

/// The first `limit` elements, or all.
pub open spec fn at_most<T>(s: Seq<T>, limit: Option<u64>) -> Seq<T> {
    match limit {
        Some(n) => if n < s.len() {
            s.take(n as int)
        } else {
            s
        },
        None => s,
    }
}

/// Untriaged, still-open postings awaiting a score, oldest first.
pub fn untriaged_postings(rows: &Vec<posting::Model>, limit: Option<u64>) -> (r: Vec<
    posting::Model,
>)
    ensures
        r@ == at_most(sorted(rows@.filter(is_untriaged()), by_first_seen()), limit),
{
    let keep = |p: &posting::Model| -> (b: bool)
        ensures
            b == is_untriaged()(*p),
    {
        p.triaged_at.is_none() && p.closed_at.is_none()
    };
    let kept = select_rows(rows, keep, Ghost(is_untriaged()));
    let before = |a: &posting::Model, b: &posting::Model| -> (r: bool)
        ensures
            r == by_first_seen()(*a, *b),
    {
        le_text(a.first_seen.as_str(), b.first_seen.as_str())
    };
    let mut out = sort_rows(kept, before, Ghost(by_first_seen()));
    match limit {
        Some(n) => if n < out.len() as u64 {
            out.truncate(n as usize);
        },
        None => {},
    }
    out
}

/// The posting with the id.
pub open spec fn is_posting(id: i32) -> spec_fn(posting::Model) -> bool {
    |p: posting::Model| p.id == id
}

/// The postings with one of the ids.
pub open spec fn is_one_of(ids: Seq<i32>) -> spec_fn(posting::Model) -> bool {
    |p: posting::Model| ids.contains(p.id)
}

/// A posting with a triage result recorded.
pub open spec fn is_scored(
    score: i32,
    reason: Seq<char>,
    flags_json: Seq<char>,
    now: Seq<char>,
) -> spec_fn(posting::Model, posting::Model) -> bool {
    |before: posting::Model, after: posting::Model|
        {
            &&& after == (posting::Model {
                score: Some(score),
                score_reason: after.score_reason,
                flags: after.flags,
                triaged_at: after.triaged_at,
                ..before
            })
            &&& opt_text(after.score_reason) == Some(reason)
            &&& opt_text(after.flags) == Some(flags_json)
            &&& opt_text(after.triaged_at) == Some(now)
        }
}

/// A posting with a triage result recorded.
fn scored(p: &posting::Model, score: i32, reason: &str, flags_json: &str, now: &str) -> (r:
    posting::Model)
    ensures
        is_scored(score, reason@, flags_json@, now@)(*p, r),
{
    let mut r = p.copy();
    r.score = Some(score);
    r.score_reason = Some(reason.to_owned());
    r.flags = Some(flags_json.to_owned());
    r.triaged_at = Some(now.to_owned());
    r
}

/// Persist a triage result on a posting: score, one-line reason, JSON flags
/// array, and the `triaged_at` stamp that removes it from future triage runs.
pub fn set_triage(
    rows: &mut Vec<posting::Model>,
    posting_id: i32,
    score: i32,
    reason: &str,
    flags_json: &str,
    now: &str,
)
    ensures
        rows_changed(
            old(rows)@,
            final(rows)@,
            is_posting(posting_id),
            is_scored(score, reason@, flags_json@, now@),
        ),
{
    let hit = |p: &posting::Model| -> (b: bool)
        ensures
            b == is_posting(posting_id)(*p),
    {
        p.id == posting_id
    };
    let edit = |p: &posting::Model| -> (r: posting::Model)
        ensures
            is_scored(score, reason@, flags_json@, now@)(*p, r),
    {
        scored(p, score, reason, flags_json, now)
    };
    let _ = change_rows(
        rows,
        hit,
        edit,
        Ghost(is_posting(posting_id)),
        Ghost(is_scored(score, reason@, flags_json@, now@)),
    );
}

/// Persist one triage result on several postings.
pub fn set_triage_bulk(
    rows: &mut Vec<posting::Model>,
    posting_ids: &Vec<i32>,
    score: i32,
    reason: &str,
    flags_json: &str,
    now: &str,
)
    ensures
        rows_changed(
            old(rows)@,
            final(rows)@,
            is_one_of(posting_ids@),
            is_scored(score, reason@, flags_json@, now@),
        ),
{
    let hit = |p: &posting::Model| -> (b: bool)
        ensures
            b == is_one_of(posting_ids@)(*p),
    {
        has_id(posting_ids, p.id)
    };
    let edit = |p: &posting::Model| -> (r: posting::Model)
        ensures
            is_scored(score, reason@, flags_json@, now@)(*p, r),
    {
        scored(p, score, reason, flags_json, now)
    };
    let _ = change_rows(
        rows,
        hit,
        edit,
        Ghost(is_one_of(posting_ids@)),
        Ghost(is_scored(score, reason@, flags_json@, now@)),
    );
}

/// The open postings that carry a triage stamp.
pub open spec fn is_triaged() -> spec_fn(posting::Model) -> bool {
    |p: posting::Model| p.triaged_at is Some && p.closed_at is None
}

/// A posting without its triage result.
pub open spec fn is_unscored() -> spec_fn(posting::Model, posting::Model) -> bool {
    |before: posting::Model, after: posting::Model|
        after == (posting::Model {
            score: None,
            score_reason: None,
            flags: None,
            triaged_at: None,
            ..before
        })
}

/// Clear the triage results of the open postings, so that they are scored again.
/// Returns the number of postings cleared.
pub fn reset_triage(rows: &mut Vec<posting::Model>) -> (n: u64)
    ensures
        rows_changed(old(rows)@, final(rows)@, is_triaged(), is_unscored()),
        n == old(rows)@.filter(is_triaged()).len(),
{
    let hit = |p: &posting::Model| -> (b: bool)
        ensures
            b == is_triaged()(*p),
    {
        p.triaged_at.is_some() && p.closed_at.is_none()
    };
    let edit = |p: &posting::Model| -> (r: posting::Model)
        ensures
            is_unscored()(*p, r),
    {
        let mut r = p.copy();
        r.score = None;
        r.score_reason = None;
        r.flags = None;
        r.triaged_at = None;
        r
    };
    change_rows(rows, hit, edit, Ghost(is_triaged()), Ghost(is_unscored()))
}

/// A posting with its dismissal stamp set or cleared.
pub open spec fn is_dismissed(at: Option<Seq<char>>) -> spec_fn(
    posting::Model,
    posting::Model,
) -> bool {
    |before: posting::Model, after: posting::Model|
        {
            &&& after == (posting::Model { dismissed_at: after.dismissed_at, ..before })
            &&& opt_text(after.dismissed_at) == at
        }
}

/// Dismiss a posting, or restore it. Returns the posting, or none if there is no
/// such id.
pub fn set_dismissed(rows: &mut Vec<posting::Model>, posting_id: i32, at: Option<&str>) -> (r:
    Option<posting::Model>)
    ensures
        rows_changed(old(rows)@, final(rows)@, is_posting(posting_id), is_dismissed(opt_str(at))),
        r == first_hit(final(rows)@, is_posting(posting_id)),
{
    let hit = |p: &posting::Model| -> (b: bool)
        ensures
            b == is_posting(posting_id)(*p),
    {
        p.id == posting_id
    };
    let edit = |p: &posting::Model| -> (r: posting::Model)
        ensures
            is_dismissed(opt_str(at))(*p, r),
    {
        let mut r = p.copy();
        r.dismissed_at = match at {
            Some(t) => Some(t.to_owned()),
            None => None,
        };
        r
    };
    let _ = change_rows(
        rows,
        hit,
        edit,
        Ghost(is_posting(posting_id)),
        Ghost(is_dismissed(opt_str(at))),
    );
    find_row(rows, hit, Ghost(is_posting(posting_id)))
}

// ---------------------------------------------------------------------------
// Showing
// ---------------------------------------------------------------------------

/// Whether a score reaches the threshold; without a threshold every posting does,
/// and a posting without a score reaches none.
pub open spec fn reaches(score: Option<i32>, min_score: Option<i32>) -> bool {
    min_score matches Some(m) ==> score matches Some(s) && s >= m
}

/// The postings of the digest: open, not dismissed, first seen since the cutoff
/// and with a score that reaches the threshold.
pub open spec fn is_shown(since: Option<Seq<char>>, min_score: Option<i32>) -> spec_fn(
    posting::Model,
) -> bool {
    |p: posting::Model|
        {
            &&& p.closed_at is None
            &&& p.dismissed_at is None
            &&& since matches Some(s) ==> text_le(s, p.first_seen@)
            &&& reaches(p.score, min_score)
        }
}

/// The postings of the apply picker: those of the digest without an application.
pub open spec fn is_pickable(
    applications: Seq<application::Model>,
    min_score: Option<i32>,
) -> spec_fn(posting::Model) -> bool {
    |p: posting::Model|
        {
            &&& is_shown(None, min_score)(p)
            &&& !has_applied(applications, p.id)
        }
}

/// Whether an application for the posting is stored.
pub open spec fn has_applied(applications: Seq<application::Model>, posting_id: i32) -> bool {
    exists|i: int|
        0 <= i < applications.len() && (#[trigger] applications[i]).posting_id == posting_id
}

/// Postings by score, the highest first and those without a score last, and of
/// one score by the time they were first seen, the newest first.
pub open spec fn by_rank() -> spec_fn(posting::Model, posting::Model) -> bool {
    |a: posting::Model, b: posting::Model|
        match (a.score, b.score) {
            (Some(x), Some(y)) => x > y || (x == y && text_le(b.first_seen@, a.first_seen@)),
            (Some(_), None) => true,
            (None, Some(_)) => false,
            (None, None) => text_le(b.first_seen@, a.first_seen@),
        }
}

/// Whether the first posting ranks at or before the second.
fn ranks_before(a: &posting::Model, b: &posting::Model) -> (r: bool)
    ensures
        r == by_rank()(*a, *b),
{
    match (a.score, b.score) {
        (Some(x), Some(y)) => x > y || (x == y && le_text(
            b.first_seen.as_str(),
            a.first_seen.as_str(),
        )),
        (Some(_), None) => true,
        (None, Some(_)) => false,
        (None, None) => le_text(b.first_seen.as_str(), a.first_seen.as_str()),
    }
}

/// A posting paired with its company.
pub open spec fn with_company(companies: Seq<company::Model>) -> spec_fn(posting::Model) -> (
    posting::Model,
    Option<company::Model>,
) {
    |p: posting::Model| (p, first_hit(companies, is_company(p.company_id)))
}

/// The company with the id.
pub(crate) fn company_by_id(companies: &Vec<company::Model>, id: i32) -> (r: Option<company::Model>)
    ensures
        r == first_hit(companies@, is_company(id)),
{
    let hit = |c: &company::Model| -> (b: bool)
        ensures
            b == is_company(id)(*c),
    {
        c.id == id
    };
    find_row(companies, hit, Ghost(is_company(id)))
}

/// The posting with the id.
pub(crate) fn posting_by_id(rows: &Vec<posting::Model>, id: i32) -> (r: Option<posting::Model>)
    ensures
        r == first_hit(rows@, is_posting(id)),
{
    let hit = |p: &posting::Model| -> (b: bool)
        ensures
            b == is_posting(id)(*p),
    {
        p.id == id
    };
    find_row(rows, hit, Ghost(is_posting(id)))
}

/// The postings by rank, each paired with its company.
fn ranked(kept: Vec<posting::Model>, companies: &Vec<company::Model>) -> (r: Vec<
    (posting::Model, Option<company::Model>),
>)
    ensures
        r@ == sorted(kept@, by_rank()).map_values(with_company(companies@)),
{
    let before = |a: &posting::Model, b: &posting::Model| -> (r: bool)
        ensures
            r == by_rank()(*a, *b),
    {
        ranks_before(a, b)
    };
    let rows = sort_rows(kept, before, Ghost(by_rank()));
    let mut out: Vec<(posting::Model, Option<company::Model>)> = Vec::new();
    let mut i: usize = 0;
    while i < rows.len()
        invariant
            i <= rows.len(),
            out@ =~= rows@.take(i as int).map_values(with_company(companies@)),
        decreases rows.len() - i,
    {
        let company = company_by_id(companies, rows[i].company_id);
        out.push((rows[i].copy(), company));
        assert(rows@.take(i + 1) =~= rows@.take(i as int).push(rows@[i as int]));
        i += 1;
    }
    assert(rows@.take(rows.len() as int) =~= rows@);
    out
}

/// Open postings for the digest, each paired with its company. With `min_score`,
/// only postings scored at or above it are returned (a posting without a score is
/// not); results are ranked by score, then recency.
pub fn open_postings(
    rows: &Vec<posting::Model>,
    companies: &Vec<company::Model>,
    since: Option<&str>,
    min_score: Option<i32>,
) -> (r: Vec<(posting::Model, Option<company::Model>)>)
    ensures
        r@ == sorted(rows@.filter(is_shown(opt_str(since), min_score)), by_rank()).map_values(
            with_company(companies@),
        ),
{
    let keep = |p: &posting::Model| -> (b: bool)
        ensures
            b == is_shown(opt_str(since), min_score)(*p),
    {
        let recent = match since {
            Some(s) => le_text(s, p.first_seen.as_str()),
            None => true,
        };
        p.closed_at.is_none() && p.dismissed_at.is_none() && recent && score_reaches(
            p.score,
            min_score,
        )
    };
    ranked(select_rows(rows, keep, Ghost(is_shown(opt_str(since), min_score))), companies)
}

/// Whether a score reaches the threshold.
fn score_reaches(score: Option<i32>, min_score: Option<i32>) -> (r: bool)
    ensures
        r == reaches(score, min_score),
{
    match (min_score, score) {
        (None, _) => true,
        (Some(_), None) => false,
        (Some(m), Some(s)) => s >= m,
    }
}

/// Whether an application for the posting is among the rows.
fn applied_to(applications: &Vec<application::Model>, posting_id: i32) -> (r: bool)
    ensures
        r == has_applied(applications@, posting_id),
{
    let mut i: usize = 0;
    while i < applications.len()
        invariant
            i <= applications.len(),
            forall|k: int| 0 <= k < i ==> (#[trigger] applications@[k]).posting_id != posting_id,
        decreases applications.len() - i,
    {
        if applications[i].posting_id == posting_id {
            assert(applications@[i as int].posting_id == posting_id);
            return true;
        }
        i += 1;
    }
    false
}

/// Open postings that do not have an application yet, ranked like those of
/// `open_postings`. Backs the interactive `apply` picker, so that roles already
/// applied to do not reappear.
pub fn unapplied_open_postings(
    rows: &Vec<posting::Model>,
    companies: &Vec<company::Model>,
    applications: &Vec<application::Model>,
    min_score: Option<i32>,
) -> (r: Vec<(posting::Model, Option<company::Model>)>)
    ensures
        r@ == sorted(rows@.filter(is_pickable(applications@, min_score)), by_rank()).map_values(
            with_company(companies@),
        ),
{
    let keep = |p: &posting::Model| -> (b: bool)
        ensures
            b == is_pickable(applications@, min_score)(*p),
    {
        p.closed_at.is_none() && p.dismissed_at.is_none() && score_reaches(p.score, min_score)
            && !applied_to(applications, p.id)
    };
    ranked(select_rows(rows, keep, Ghost(is_pickable(applications@, min_score))), companies)
}

/// A posting paired with its company, by posting id.
pub fn posting_with_company(
    rows: &Vec<posting::Model>,
    companies: &Vec<company::Model>,
    posting_id: i32,
) -> (r: Option<(posting::Model, Option<company::Model>)>)
    ensures
        r == match first_hit(rows@, is_posting(posting_id)) {
            Some(p) => Some(with_company(companies@)(p)),
            None => None,
        },
{
    match posting_by_id(rows, posting_id) {
        Some(p) => {
            let company = company_by_id(companies, p.company_id);
            Some((p, company))
        },
        None => None,
    }
}

} // verus!
