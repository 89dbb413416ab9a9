//! The applications: recording them, listing them and moving them on.

use vstd::prelude::*;

use crate::db::entities::{application, company, posting, Row};
use crate::db::queries::companies::is_company;
use crate::db::queries::postings::{company_by_id, is_posting, posting_by_id};
use crate::db::tables::{change_rows, find_row, first_hit, rows_changed, select_rows};
use crate::sorting::{sort_rows, sorted};
use crate::text::order::{le_text, text_le};
use crate::text::{opt_str, opt_text, same_text};

verus! {

/// Outcome of recording an application.
#[derive(Debug, Clone)]
pub enum ApplyOutcome {
    Created(application::Draft),
    Existing(application::Model),
}

/// An application joined to its posting and company for display.
pub type AppRow = (application::Model, Option<posting::Model>, Option<company::Model>);

/// The application for the posting.
pub open spec fn is_application_for(posting_id: i32) -> spec_fn(application::Model) -> bool {
    |a: application::Model| a.posting_id == posting_id
}

/// The application with the id.
pub open spec fn is_application(id: i32) -> spec_fn(application::Model) -> bool {
    |a: application::Model| a.id == id
}

/// A new application: applied now, with no contact yet.
pub open spec fn is_new_application(
    d: application::Draft,
    posting_id: i32,
    now: Seq<char>,
) -> bool {
    &&& d.posting_id == posting_id
    &&& d.applied_at@ == now
    &&& d.stage@ == "applied"@
    &&& d.last_contact is None
    &&& d.next_followup is None
    &&& d.notes is None
}

/// Record an application against a posting. If one is stored for the posting
/// already, that one is returned unchanged: a role is applied to once.
pub fn create_application(rows: &Vec<application::Model>, posting_id: i32, now: &str) -> (r:
    ApplyOutcome)
    ensures
        match first_hit(rows@, is_application_for(posting_id)) {
            Some(a) => r == ApplyOutcome::Existing(a),
            None => r matches ApplyOutcome::Created(d) && is_new_application(d, posting_id, now@),
        },
{
    let hit = |a: &application::Model| -> (b: bool)
        ensures
            b == is_application_for(posting_id)(*a),
    {
        a.posting_id == posting_id
    };
    match find_row(rows, hit, Ghost(is_application_for(posting_id))) {
        Some(a) => ApplyOutcome::Existing(a),
        None => ApplyOutcome::Created(
            application::Draft {
                posting_id,
                applied_at: now.to_owned(),
                stage: "applied".to_owned(),
                last_contact: None,
                next_followup: None,
                notes: None,
            },
        ),
    }
}

/// The applications at the stage, or all that are still open.
pub open spec fn is_listed(stage: Option<Seq<char>>) -> spec_fn(application::Model) -> bool {
    |a: application::Model|
        match stage {
            Some(s) => a.stage@ == s,
            None => a.stage@ != "rejected"@ && a.stage@ != "ghosted"@,
        }
}

/// Applications by date, the newest first.
pub open spec fn by_applied() -> spec_fn(application::Model, application::Model) -> bool {
    |a: application::Model, b: application::Model| text_le(b.applied_at@, a.applied_at@)
}

/// An application with its posting and that posting's company.
pub open spec fn joined(postings: Seq<posting::Model>, companies: Seq<company::Model>) -> spec_fn(
    application::Model,
) -> AppRow {
    |a: application::Model|
        {
            let p = first_hit(postings, is_posting(a.posting_id));
            (
                a,
                p,
                match p {
                    Some(q) => first_hit(companies, is_company(q.company_id)),
                    None => None,
                },
            )
        }
}

/// List applications, newest first. With `stage`, those at exactly that stage;
/// without it, the open applications (neither rejected nor ghosted).
pub fn list_applications(
    rows: &Vec<application::Model>,
    postings: &Vec<posting::Model>,
    companies: &Vec<company::Model>,
    stage: Option<&str>,
) -> (r: Vec<AppRow>)
    ensures
        r@ == sorted(rows@.filter(is_listed(opt_str(stage))), by_applied()).map_values(
            joined(postings@, companies@),
        ),
{
    let keep = |a: &application::Model| -> (b: bool)
        ensures
            b == is_listed(opt_str(stage))(*a),
    {
        match stage {
            Some(s) => same_text(a.stage.as_str(), s),
            None => !same_text(a.stage.as_str(), "rejected") && !same_text(
                a.stage.as_str(),
                "ghosted",
            ),
        }
    };
    let kept = select_rows(rows, keep, Ghost(is_listed(opt_str(stage))));
    let before = |a: &application::Model, b: &application::Model| -> (r: bool)
        ensures
            r == by_applied()(*a, *b),
    {
        le_text(b.applied_at.as_str(), a.applied_at.as_str())
    };
    let apps = sort_rows(kept, before, Ghost(by_applied()));
    let mut out: Vec<AppRow> = Vec::new();
    let mut i: usize = 0;
    while i < apps.len()
        invariant
            i <= apps.len(),
            out@ =~= apps@.take(i as int).map_values(joined(postings@, companies@)),
        decreases apps.len() - i,
    {
        let posting = posting_by_id(postings, apps[i].posting_id);
        let company = match &posting {
            Some(p) => company_by_id(companies, p.company_id),
            None => None,
        };
        out.push((apps[i].copy(), posting, company));
        assert(apps@.take(i + 1) =~= apps@.take(i as int).push(apps@[i as int]));
        i += 1;
    }
    assert(apps@.take(apps.len() as int) =~= apps@);
    out
}

/// Notes with a dated note appended, on a line of its own after earlier notes.
pub open spec fn noted(notes: Option<Seq<char>>, note: Seq<char>, today: Seq<char>) -> Seq<char> {
    match notes {
        Some(prev) if prev.len() > 0 => prev + "\n["@ + today + "] "@ + note,
        _ => "["@ + today + "] "@ + note,
    }
}

/// An application moved to a stage now, with a note if one is given.
pub open spec fn is_moved(
    stage: Seq<char>,
    note: Option<Seq<char>>,
    now: Seq<char>,
    today: Seq<char>,
) -> spec_fn(application::Model, application::Model) -> bool {
    |before: application::Model, after: application::Model|
        {
            &&& after == (application::Model {
                stage: after.stage,
                last_contact: after.last_contact,
                notes: after.notes,
                ..before
            })
            &&& after.stage@ == stage
            &&& opt_text(after.last_contact) == Some(now)
            &&& match note {
                Some(n) => opt_text(after.notes) == Some(noted(opt_text(before.notes), n, today)),
                None => after.notes == before.notes,
            }
        }
}

/// Notes with a dated note appended.
fn with_note(notes: &Option<String>, note: &str, today: &str) -> (r: String)
    ensures
        r@ == noted(opt_text(*notes), note@, today@),
{
    let mut out = match notes {
        Some(prev) => {
            if prev.as_str().is_empty() {
                "[".to_owned()
            } else {
                let mut s = prev.clone();
                s.append("\n[");
                s
            }
        },
        None => "[".to_owned(),
    };
    out.append(today);
    out.append("] ");
    out.append(note);
    out
}

/// Move an application to a new stage, stamping `last_contact = now` (a logged
/// transition is a contact event, which resets the follow-up clocks) and
/// appending a dated note when one is given. Returns false if there is no such id.
pub fn update_application_stage(
    rows: &mut Vec<application::Model>,
    app_id: i32,
    stage: &str,
    note: Option<&str>,
    now: &str,
    today: &str,
) -> (r: bool)
    ensures
        rows_changed(
            old(rows)@,
            final(rows)@,
            is_application(app_id),
            is_moved(stage@, opt_str(note), now@, today@),
        ),
        r == (first_hit(old(rows)@, is_application(app_id)) is Some),
{
    let hit = |a: &application::Model| -> (b: bool)
        ensures
            b == is_application(app_id)(*a),
    {
        a.id == app_id
    };
    let edit = |a: &application::Model| -> (r: application::Model)
        ensures
            is_moved(stage@, opt_str(note), now@, today@)(*a, r),
    {
        let mut r = a.copy();
        r.stage = stage.to_owned();
        r.last_contact = Some(now.to_owned());
        match note {
            Some(n) => {
                r.notes = Some(with_note(&a.notes, n, today));
            },
            None => {},
        }
        r
    };
    let found = find_row(rows, hit, Ghost(is_application(app_id)));
    let _ = change_rows(
        rows,
        hit,
        edit,
        Ghost(is_application(app_id)),
        Ghost(is_moved(stage@, opt_str(note), now@, today@)),
    );
    found.is_some()
}

/// Remove an application. Returns it, or none if there is no such id.
pub fn delete_application(rows: &mut Vec<application::Model>, app_id: i32) -> (r: Option<
    application::Model,
>)
    ensures
        final(rows)@ == old(rows)@.filter(|a: application::Model| a.id != app_id),
        r == first_hit(old(rows)@, is_application(app_id)),
{
    let hit = |a: &application::Model| -> (b: bool)
        ensures
            b == is_application(app_id)(*a),
    {
        a.id == app_id
    };
    let ghost stays = |a: application::Model| a.id != app_id;
    let keep = |a: &application::Model| -> (b: bool)
        ensures
            b == stays(*a),
    {
        a.id != app_id
    };
    let found = find_row(rows, hit, Ghost(is_application(app_id)));
    *rows = select_rows(rows, keep, Ghost(stays));
    found
}

} // verus!
