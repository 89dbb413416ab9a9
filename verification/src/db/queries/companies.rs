//! The companies: seeding, adding, listing and stamping them.

use vstd::prelude::*;

use crate::db::entities::{company, Row};
use crate::db::tables::{change_rows, rows_changed, select_rows};
use crate::sorting::{sort_rows, sorted};
use crate::text::order::{le_text, text_le};
use crate::text::{copy_opt, opt_str, opt_text, same_text};

verus! {

/// A company to seed from the company list.
#[derive(Debug, Clone)]
pub struct SeedCompany {
    pub name: String,
    pub ats: String,
    pub slug: String,
    pub careers_url: Option<String>,
    pub tags: Option<String>,
}

/// Whether a company with this board is stored.
pub open spec fn has_board(rows: Seq<company::Model>, key: (Seq<char>, Seq<char>)) -> bool {
    exists|i: int| 0 <= i < rows.len() && (#[trigger] rows[i]).key() == key
}

/// What identifies the board of a seed.
pub open spec fn seed_key(s: SeedCompany) -> (Seq<char>, Seq<char>) {
    (s.ats@, s.slug@)
}

/// Whether the seed at `i` names a board that is neither stored nor named by an
/// earlier seed.
pub open spec fn is_new_seed(rows: Seq<company::Model>, seeds: Seq<SeedCompany>, i: int) -> bool {
    &&& !has_board(rows, seed_key(seeds[i]))
    &&& forall|j: int| 0 <= j < i ==> seed_key(#[trigger] seeds[j]) != seed_key(seeds[i])
}

/// The seeds that are new, in order.
pub open spec fn new_seeds(rows: Seq<company::Model>, seeds: Seq<SeedCompany>) -> Seq<SeedCompany>
    decreases seeds.len(),
{
    if seeds.len() == 0 {
        Seq::empty()
    } else {
        let front = new_seeds(rows, seeds.drop_last());
        if is_new_seed(rows, seeds, seeds.len() - 1) {
            front.push(seeds.last())
        } else {
            front
        }
    }
}

/// The row that a seed is stored as: active, not flagged, never fetched.
pub open spec fn seed_draft(s: SeedCompany) -> company::Draft {
    company::Draft {
        name: s.name,
        ats: s.ats,
        slug: s.slug,
        careers_url: s.careers_url,
        tags: s.tags,
        active: 1,
        needs_review: 0,
        last_fetched: None,
    }
}

/// Whether a company with this board is among the rows.
fn board_stored(rows: &Vec<company::Model>, ats: &str, slug: &str) -> (r: bool)
    ensures
        r == has_board(rows@, (ats@, slug@)),
{
    let mut i: usize = 0;
    while i < rows.len()
        invariant
            i <= rows.len(),
            forall|k: int| 0 <= k < i ==> (#[trigger] rows@[k]).key() != (ats@, slug@),
        decreases rows.len() - i,
    {
        if same_text(rows[i].ats.as_str(), ats) && same_text(rows[i].slug.as_str(), slug) {
            assert(rows@[i as int].key() == (ats@, slug@));
            return true;
        }
        i += 1;
    }
    false
}

/// The rows to insert for a list of seeds: those whose board is not stored yet,
/// each board once.
pub fn seed_companies(rows: &Vec<company::Model>, seeds: &Vec<SeedCompany>) -> (r: Vec<
    company::Draft,
>)
    ensures
        r@ == new_seeds(rows@, seeds@).map_values(|s: SeedCompany| seed_draft(s)),
{
    let mut out: Vec<company::Draft> = Vec::new();
    let ghost f = |s: SeedCompany| seed_draft(s);
    let mut i: usize = 0;
    assert(out@ =~= new_seeds(rows@, seeds@.take(0)).map_values(f));
    while i < seeds.len()
        invariant
            i <= seeds.len(),
            f == (|s: SeedCompany| seed_draft(s)),
            out@ == new_seeds(rows@, seeds@.take(i as int)).map_values(f),
        decreases seeds.len() - i,
    {
        let s = &seeds[i];
        let ghost p = seeds@.take(i + 1);
        assert(p.drop_last() =~= seeds@.take(i as int));
        assert(p.last() == *s);
        let mut fresh = !board_stored(rows, s.ats.as_str(), s.slug.as_str());
        let mut j: usize = 0;
        while j < i
            invariant
                j <= i < seeds.len(),
                *s == seeds@[i as int],
                p == seeds@.take(i + 1),
                fresh == (!has_board(rows@, seed_key(*s)) && forall|k: int|
                    0 <= k < j ==> seed_key(#[trigger] p[k]) != seed_key(*s)),
            decreases i - j,
        {
            let e = &seeds[j];
            assert(p[j as int] == *e);
            if same_text(e.ats.as_str(), s.ats.as_str()) && same_text(
                e.slug.as_str(),
                s.slug.as_str(),
            ) {
                fresh = false;
            } else {
                assert(seed_key(*e) != seed_key(*s));
            }
            j += 1;
        }
        assert(fresh == is_new_seed(rows@, p, i as int));
        let ghost before = new_seeds(rows@, seeds@.take(i as int));
        if fresh {
            out.push(
                company::Draft {
                    name: s.name.clone(),
                    ats: s.ats.clone(),
                    slug: s.slug.clone(),
                    careers_url: copy_opt(&s.careers_url),
                    tags: copy_opt(&s.tags),
                    active: 1,
                    needs_review: 0,
                    last_fetched: None,
                },
            );
            assert(out@ =~= before.push(*s).map_values(f));
        }
        i += 1;
    }
    assert(seeds@.take(seeds.len() as int) =~= seeds@);
    out
}

/// The row to insert for one company, unless its board is stored already.
pub fn add_company(
    rows: &Vec<company::Model>,
    name: &str,
    ats: &str,
    slug: &str,
    careers_url: Option<&str>,
) -> (r: Option<company::Draft>)
    ensures
        r is None <==> has_board(rows@, (ats@, slug@)),
        r matches Some(d) ==> {
            &&& d.name@ == name@
            &&& d.ats@ == ats@
            &&& d.slug@ == slug@
            &&& opt_text(d.careers_url) == opt_str(careers_url)
            &&& d.tags is None
            &&& d.active == 1
            &&& d.needs_review == 0
            &&& d.last_fetched is None
        },
{
    if board_stored(rows, ats, slug) {
        return None;
    }
    Some(
        company::Draft {
            name: name.to_owned(),
            ats: ats.to_owned(),
            slug: slug.to_owned(),
            careers_url: match careers_url {
                Some(u) => Some(u.to_owned()),
                None => None,
            },
            tags: None,
            active: 1,
            needs_review: 0,
            last_fetched: None,
        },
    )
}

/// Companies in the order of the company list: by system, then by name.
pub open spec fn by_board() -> spec_fn(company::Model, company::Model) -> bool {
    |a: company::Model, b: company::Model|
        if a.ats@ != b.ats@ {
            text_le(a.ats@, b.ats@)
        } else {
            text_le(a.name@, b.name@)
        }
}

/// Companies by name.
pub open spec fn by_name() -> spec_fn(company::Model, company::Model) -> bool {
    |a: company::Model, b: company::Model| text_le(a.name@, b.name@)
}

/// Every company, or those flagged for review.
pub open spec fn listed(needs_review_only: bool) -> spec_fn(company::Model) -> bool {
    |c: company::Model| !needs_review_only || c.needs_review == 1
}

/// The active companies, of one system or of all.
pub open spec fn polled(only_ats: Option<Seq<char>>) -> spec_fn(company::Model) -> bool {
    |c: company::Model|
        c.active == 1 && (only_ats matches Some(ats) ==> c.ats@ == ats)
}

/// All companies, or those flagged for review, by system and name.
pub fn list_companies(rows: &Vec<company::Model>, needs_review_only: bool) -> (r: Vec<
    company::Model,
>)
    ensures
        r@ == sorted(rows@.filter(listed(needs_review_only)), by_board()),
{
    let keep = |c: &company::Model| -> (b: bool)
        ensures
            b == listed(needs_review_only)(*c),
    {
        !needs_review_only || c.needs_review == 1
    };
    let kept = select_rows(rows, keep, Ghost(listed(needs_review_only)));
    let before = |a: &company::Model, b: &company::Model| -> (r: bool)
        ensures
            r == by_board()(*a, *b),
    {
        if !same_text(a.ats.as_str(), b.ats.as_str()) {
            le_text(a.ats.as_str(), b.ats.as_str())
        } else {
            le_text(a.name.as_str(), b.name.as_str())
        }
    };
    sort_rows(kept, before, Ghost(by_board()))
}

/// All active companies, or those of a single system, by name.
pub fn active_companies(rows: &Vec<company::Model>, only_ats: Option<&str>) -> (r: Vec<
    company::Model,
>)
    ensures
        r@ == sorted(rows@.filter(polled(opt_str(only_ats))), by_name()),
{
    let keep = |c: &company::Model| -> (b: bool)
        ensures
            b == polled(opt_str(only_ats))(*c),
    {
        c.active == 1 && match only_ats {
            Some(ats) => same_text(c.ats.as_str(), ats),
            None => true,
        }
    };
    let kept = select_rows(rows, keep, Ghost(polled(opt_str(only_ats))));
    let before = |a: &company::Model, b: &company::Model| -> (r: bool)
        ensures
            r == by_name()(*a, *b),
    {
        le_text(a.name.as_str(), b.name.as_str())
    };
    sort_rows(kept, before, Ghost(by_name()))
}

/// The number of companies.
pub fn count_companies(rows: &Vec<company::Model>) -> (n: u64)
    ensures
        n == rows@.len(),
{
    rows.len() as u64
}

/// The company with the id.
pub open spec fn is_company(id: i32) -> spec_fn(company::Model) -> bool {
    |c: company::Model| c.id == id
}

/// A company flagged for review.
pub open spec fn reviewed() -> spec_fn(company::Model, company::Model) -> bool {
    |before: company::Model, after: company::Model|
        after == (company::Model { needs_review: 1, ..before })
}

/// A company with its fetch time stamped.
pub open spec fn touched(now: Seq<char>) -> spec_fn(company::Model, company::Model) -> bool {
    |before: company::Model, after: company::Model|
        {
            &&& after == (company::Model { last_fetched: after.last_fetched, ..before })
            &&& opt_text(after.last_fetched) == Some(now)
        }
}

/// Flag a company for manual review.
pub fn mark_needs_review(rows: &mut Vec<company::Model>, company_id: i32)
    ensures
        rows_changed(old(rows)@, final(rows)@, is_company(company_id), reviewed()),
{
    let hit = |c: &company::Model| -> (b: bool)
        ensures
            b == is_company(company_id)(*c),
    {
        c.id == company_id
    };
    let edit = |c: &company::Model| -> (r: company::Model)
        ensures
            reviewed()(*c, r),
    {
        let mut r = c.copy();
        r.needs_review = 1;
        r
    };
    let _ = change_rows(rows, hit, edit, Ghost(is_company(company_id)), Ghost(reviewed()));
}

/// Record the time of a successful fetch.
pub fn touch_last_fetched(rows: &mut Vec<company::Model>, company_id: i32, now: &str)
    ensures
        rows_changed(old(rows)@, final(rows)@, is_company(company_id), touched(now@)),
{
    let hit = |c: &company::Model| -> (b: bool)
        ensures
            b == is_company(company_id)(*c),
    {
        c.id == company_id
    };
    let edit = |c: &company::Model| -> (r: company::Model)
        ensures
            touched(now@)(*c, r),
    {
        let mut r = c.copy();
        r.last_fetched = Some(now.to_owned());
        r
    };
    let _ = change_rows(rows, hit, edit, Ghost(is_company(company_id)), Ghost(touched(now@)));
}

} // verus!
