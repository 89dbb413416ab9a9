//! What the commands promise, on every input.

use vstd::prelude::*;

use crate::cli::{DigestFormat, Stage};
use crate::clock::{days_from, Instant};
use crate::commands::apply::{
    picker_item, step_after, truncated, ApplyChoice, ApplyEvent, ApplyStep,
};
use crate::commands::companies::{company_entries, company_entry, company_list, review_mark};
use crate::commands::digest::format_of;
use crate::commands::fetch::{
    inserted, is_error, total_new, total_updated, updated, wants_review, was_fetched, Board,
    Outcome,
};
use crate::commands::followup::{advice, followup_text, is_due, nudges, suggested};
use crate::commands::init::company_ending;
use crate::commands::pager::pagers;
use crate::commands::track::{app_entries, app_entry, app_list, date_of};
use crate::db::entities::{application, company, posting};
use crate::db::queries::applications::AppRow;
use crate::db::queries::postings::UpsertOutcome;
use crate::report::{badge_of, name_of};
use crate::text::number::{decimal, decimal_int, pad_right};
use crate::text::search::texts_are_cut_at_the_first_place;
use crate::text::words::words;
use crate::text::{is_blank, trim};

verus! {

// ---------------------------------------------------------------------------
// Text
// ---------------------------------------------------------------------------

/// Texts one after the other, however they are grouped, with nothing at the end.
proof fn lemma_regroup(x: Seq<char>, y: Seq<char>, z: Seq<char>)
    ensures
        (x + y) + z == x + (y + z),
        x + Seq::<char>::empty() == x,
{
    assert((x + y) + z =~= x + (y + z));
    assert(x + Seq::<char>::empty() =~= x);
}

// ---------------------------------------------------------------------------
// Stages and formats
// ---------------------------------------------------------------------------

/// The stages are stored under their own names.
pub proof fn stages_are_stored_by_name()
    ensures
        Stage::Applied.name() == "applied"@,
        Stage::Screen.name() == "screen"@,
        Stage::Interview.name() == "interview"@,
        Stage::Offer.name() == "offer"@,
        Stage::Rejected.name() == "rejected"@,
        Stage::Ghosted.name() == "ghosted"@,
{
}

/// The digest is rendered in the format that was asked for.
pub proof fn formats_are_as_asked(f: DigestFormat)
    ensures
        format_of(f) is Md <==> f is Md,
        format_of(f) is Term <==> f is Term,
{
}

/// The user's own pager is the only one that is tried, with its arguments; without one,
/// `less` is tried before `more`.
pub proof fn own_pagers_come_first(own: Seq<char>)
    ensures
        !is_blank(own) ==> pagers(Some(own)) == seq![words(own)],
        is_blank(own) ==> pagers(Some(own)) == seq![seq!["less"@, "-RF"@], seq!["more"@]],
        pagers(None) == seq![seq!["less"@, "-RF"@], seq!["more"@]],
{
}

/// One company, and any other number of companies.
pub proof fn one_company_or_several(n: nat)
    ensures
        company_ending(1) == "y"@,
        n != 1 ==> company_ending(n) == "ies"@,
{
}

// ---------------------------------------------------------------------------
// Applying
// ---------------------------------------------------------------------------

/// How applying goes on: what was picked is looked up; what was found is shown to be
/// confirmed, or recorded at once where nobody is asked; what was confirmed is recorded
/// or dismissed. Cancelling and dismissing lead back to the picker where it is used,
/// and quitting the picker ends the command.
pub proof fn applying_goes_step_by_step(id: i32, picking: bool, asking: bool)
    ensures
        step_after(ApplyStep::Pick, ApplyEvent::Picked(Some(id)), picking, asking) == (
        ApplyStep::Look { id }),
        step_after(ApplyStep::Pick, ApplyEvent::Picked(None), picking, asking) == ApplyStep::Done,
        step_after(ApplyStep::Look { id }, ApplyEvent::Looked(false), picking, asking) == (
        ApplyStep::NoPosting { id }),
        step_after(ApplyStep::Look { id }, ApplyEvent::Looked(true), picking, true) == (
        ApplyStep::Confirm { id }),
        step_after(ApplyStep::Look { id }, ApplyEvent::Looked(true), picking, false) == (
        ApplyStep::Record { id }),
        step_after(
            ApplyStep::Confirm { id },
            ApplyEvent::Chose(ApplyChoice::Apply),
            picking,
            asking,
        ) == (ApplyStep::Record { id }),
        step_after(
            ApplyStep::Confirm { id },
            ApplyEvent::Chose(ApplyChoice::Dismiss),
            picking,
            asking,
        ) == (ApplyStep::Dismiss { id }),
        step_after(
            ApplyStep::Confirm { id },
            ApplyEvent::Chose(ApplyChoice::Cancel),
            true,
            asking,
        ) == ApplyStep::Pick,
        step_after(
            ApplyStep::Confirm { id },
            ApplyEvent::Chose(ApplyChoice::Cancel),
            false,
            asking,
        ) == ApplyStep::Cancelled,
        step_after(ApplyStep::Dismiss { id }, ApplyEvent::Finished, true, asking)
            == ApplyStep::Pick,
        step_after(ApplyStep::Dismiss { id }, ApplyEvent::Finished, false, asking)
            == ApplyStep::Done,
        step_after(ApplyStep::Record { id }, ApplyEvent::Finished, picking, asking)
            == ApplyStep::Done,
        step_after(ApplyStep::Cancelled, ApplyEvent::Finished, picking, asking)
            == ApplyStep::Done,
{
}

/// A text that fits is shown as it is, trimmed. One that does not is cut so that it fits
/// with a mark at its end.
pub proof fn long_texts_are_cut_and_marked(s: Seq<char>, max: nat)
    ensures
        truncated(s, max).len() <= max,
        trim(s).len() <= max ==> truncated(s, max) == trim(s),
        trim(s).len() > max && max > 0 ==> truncated(s, max).len() == max && truncated(
            s,
            max,
        ).last() == '…' && truncated(s, max).drop_last() == trim(s).subrange(0, max - 1),
{
    if trim(s).len() > max && max > 0 {
        assert(truncated(s, max).drop_last() =~= trim(s).subrange(0, max - 1));
    }
}

/// An item of the picker shows the badge, the id, the title and the company, and the
/// reason for the score, cut to 72 characters, if there is one.
pub proof fn picker_items_show_the_posting(p: posting::Model, c: Option<company::Model>)
    ensures
        ({
            let head = badge_of(p.score) + " #"@ + decimal_int(p.id as int) + " "@ + p.title@
                + " — "@ + name_of(c);
            &&& p.score_reason matches Some(r) ==> picker_item((p, c)) == head + ("  ·  "@
                + truncated(r@, 72))
            &&& p.score_reason is None ==> picker_item((p, c)) == head
        }),
{
    if p.score_reason is None {
        let head = badge_of(p.score) + " #"@ + decimal_int(p.id as int) + " "@ + p.title@ + " — "@
            + name_of(c);
        lemma_regroup(head, head, head);
    }
}

// ---------------------------------------------------------------------------
// Companies
// ---------------------------------------------------------------------------

/// An entry of the company list shows system, slug and name, a mark if the company needs
/// review, and its labels if it has any.
pub proof fn company_entries_show_the_company(c: company::Model)
    ensures
        ({
            let head = pad_right(c.ats@, 11) + " "@ + pad_right(c.slug@, 22) + " "@ + c.name@;
            let marked = if c.needs_review == 1 {
                head + " [needs-review]"@
            } else {
                head
            };
            &&& c.tags matches Some(t) ==> (t@.len() > 0 ==> company_entry(c) == marked + "\n"@ + (
            "            tags: "@ + t@ + "\n"@))
            &&& (c.tags matches Some(t) ==> t@.len() == 0) ==> company_entry(c) == marked + "\n"@
        }),
{
    let head = pad_right(c.ats@, 11) + " "@ + pad_right(c.slug@, 22) + " "@ + c.name@;
    lemma_regroup(head, head, head);
    lemma_regroup(head + review_mark(c) + "\n"@, head, head);
}

/// The company list shows every company, once and in order, and then how many they are.
pub proof fn company_lists_show_every_company(
    a: Seq<company::Model>,
    c: company::Model,
    needs_review: bool,
)
    ensures
        company_entries(a.push(c)) == company_entries(a) + company_entry(c),
        company_entries(Seq::empty()) == Seq::<char>::empty(),
        a.len() > 0 ==> company_list(a, needs_review) == company_entries(a) + ("\n"@ + decimal(
            a.len(),
        ) + " compan"@ + company_ending(a.len()) + ".\n"@),
        company_list(Seq::empty(), true) == "No companies need review.\n"@,
        company_list(Seq::empty(), false) == "No companies.\n"@,
{
    assert(a.push(c).drop_last() =~= a);
}

// ---------------------------------------------------------------------------
// Fetching
// ---------------------------------------------------------------------------

/// A board that lists postings is stamped, a missing one is flagged, an empty one is
/// both, and one that failed is neither.
pub proof fn boards_are_stamped_or_flagged(b: Board)
    ensures
        b is Listed ==> b.is_fetched() && !b.needs_review(),
        b is Empty ==> b.is_fetched() && b.needs_review(),
        b is Missing ==> !b.is_fetched() && b.needs_review(),
        b is Failed ==> !b.is_fetched() && !b.needs_review(),
{
}

/// Each upsert is counted once, as inserted or as updated.
pub proof fn upserts_are_counted_once(v: Seq<UpsertOutcome>, o: UpsertOutcome)
    ensures
        inserted(Seq::empty()) == 0,
        updated(Seq::empty()) == 0,
        o is Inserted ==> inserted(v.push(o)) == inserted(v) + 1 && updated(v.push(o)) == updated(
            v,
        ),
        o is Updated ==> inserted(v.push(o)) == inserted(v) && updated(v.push(o)) == updated(v) + 1,
{
    reveal(Seq::filter);
    assert(v.push(o).drop_last() =~= v);
}

/// Each outcome adds its own numbers to a run's: new and updated postings where the board
/// was fetched, a review where it is empty or missing, an error where it failed. Only the
/// boards that answered count as fetched.
pub proof fn outcomes_add_up(results: Seq<(i32, Outcome)>, r: (i32, Outcome))
    ensures
        total_new(Seq::empty()) == 0,
        total_updated(Seq::empty()) == 0,
        r.1 matches Outcome::Fetched { new, updated } ==> total_new(results.push(r)) == total_new(
            results,
        ) + new && total_updated(results.push(r)) == total_updated(results) + updated,
        !(r.1 is Fetched) ==> total_new(results.push(r)) == total_new(results) && total_updated(
            results.push(r),
        ) == total_updated(results),
        wants_review()(r) <==> r.1 is Empty || r.1 is NeedsReview,
        is_error()(r) <==> r.1 is Error,
        was_fetched()(r) <==> r.1 is Fetched || r.1 is Empty,
{
    assert(results.push(r).drop_last() =~= results);
}

// ---------------------------------------------------------------------------
// Applications
// ---------------------------------------------------------------------------

/// The date of a timestamp is what stands before its `T`.
pub proof fn dates_stand_before_the_time(date: Seq<char>, time: Seq<char>)
    requires
        !date.contains('T'),
    ensures
        date_of(date + seq!['T'] + time) == date,
        date_of(date) == date,
{
    texts_are_cut_at_the_first_place(date, 'T', time);
}

/// An entry of the list shows the application's id, the posting's id, the stage, the
/// title, the company and the date of the application.
pub proof fn application_entries_show_the_application(row: AppRow)
    ensures
        app_entry(row) == "app #"@ + pad_right(decimal_int(row.0.id as int), 4) + " job #"@
            + pad_right(decimal_int(row.0.posting_id as int), 5) + " "@ + pad_right(row.0.stage@, 9)
            + " "@ + (match row.1 {
            Some(p) => p.title@,
            None => "(posting gone)"@,
        }) + "  —  "@ + name_of(row.2) + "  (applied "@ + date_of(row.0.applied_at@) + ")\n"@,
{
}

/// The list shows every application, once and in order, and then how many they are.
pub proof fn application_lists_show_every_application(
    a: Seq<AppRow>,
    row: AppRow,
    stage: Option<Seq<char>>,
)
    ensures
        app_entries(a.push(row)) == app_entries(a) + app_entry(row),
        app_entries(Seq::empty()) == Seq::<char>::empty(),
        a.len() > 0 ==> app_list(a, stage) == app_entries(a) + ("\n"@ + decimal(a.len())
            + " open application(s).\n"@),
        stage matches Some(s) ==> app_list(Seq::empty(), stage) == "No "@ + s
            + " applications.\n"@,
        app_list(Seq::empty(), None) == "No applications.\n"@,
{
    assert(a.push(row).drop_last() =~= a);
}

// ---------------------------------------------------------------------------
// Following up
// ---------------------------------------------------------------------------

/// In an interview loop the days since the last contact count, if there was one; else
/// those since the application was made.
pub proof fn silence_is_counted_from_the_last_contact(a: application::Model, now: Instant)
    ensures
        a.stage@ == "screen"@ || a.stage@ == "interview"@ ==> (a.last_contact matches Some(t)
            ==> suggested(a, now) == advice(a.stage@, true, days_from(t@, now))),
        (a.stage@ == "screen"@ || a.stage@ == "interview"@) && a.last_contact is None ==> suggested(
            a,
            now,
        ) == advice(a.stage@, false, days_from(a.applied_at@, now)),
        a.stage@ == "applied"@ && a.last_contact is None ==> suggested(a, now) == advice(
            "applied"@,
            false,
            days_from(a.applied_at@, now),
        ),
        a.stage@ == "applied"@ && a.last_contact is Some ==> suggested(a, now) is None,
{
    reveal_strlit("applied");
    reveal_strlit("screen");
    reveal_strlit("interview");
    assert("applied"@.len() == 7 && "screen"@.len() == 6 && "interview"@.len() == 9);
}

/// A check-in names the days of silence and the stage.
pub proof fn check_ins_name_the_stage(stage: Seq<char>, contacted: bool, days: int)
    requires
        stage == "screen"@ || stage == "interview"@,
        days >= 5,
    ensures
        advice(stage, contacted, Some(days)) == Some(
            decimal_int(days) + "d since last contact in "@ + stage + " — send a check-in"@,
        ),
{
    reveal_strlit("applied");
    reveal_strlit("screen");
    reveal_strlit("interview");
    assert("applied"@.len() == 7 && "screen"@.len() == 6 && "interview"@.len() == 9);
}

/// Without a time to count from, nothing is suggested.
pub proof fn nothing_is_suggested_without_a_time(stage: Seq<char>, contacted: bool)
    ensures
        advice(stage, contacted, None) is None,
{
}

/// The report names every application that is due, with its id, title, company and
/// suggestion, and no other, in order; and then how many are due.
pub proof fn reports_name_what_is_due(rows: Seq<AppRow>, row: AppRow, now: Instant)
    ensures
        nudges(Seq::empty(), now) == Seq::<char>::empty(),
        suggested(row.0, now) is None ==> nudges(rows.push(row), now) == nudges(rows, now),
        suggested(row.0, now) matches Some(s) ==> nudges(rows.push(row), now) == nudges(rows, now)
            + ("#"@ + decimal_int(row.0.id as int) + " "@ + (match row.1 {
            Some(p) => p.title@,
            None => "(posting gone)"@,
        }) + " — "@ + name_of(row.2) + "\n    → "@ + s + "\n"@),
        is_due(now)(row) <==> suggested(row.0, now) is Some,
        ({
            let due = rows.filter(is_due(now)).len();
            followup_text(rows, now) == nudges(rows, now) + if due == 0 {
                "No follow-ups due.\n"@
            } else {
                "\n"@ + decimal(due) + " follow-up(s) due.\n"@
            }
        }),
{
    assert(rows.push(row).drop_last() =~= rows);
    if suggested(row.0, now) is None {
        lemma_regroup(nudges(rows, now), nudges(rows, now), nudges(rows, now));
    }
}

} // verus!
