//! `apply`, `show` and `dismiss`: choosing a posting and what to do with it.

use vstd::prelude::*;

use crate::cli::DEFAULT_MIN_SCORE;
use crate::db::entities::{application, company, posting};
use crate::report::{badge, badge_of, company_name, name_of, PostingRow};
use crate::text::number::{decimal_int, i32_text};
use crate::text::{chars_of, opt_text, trim, trim_text};
use crate::triage::prompt::prefix_text;

verus! {

// ---------------------------------------------------------------------------
// The course of the command
// ---------------------------------------------------------------------------

/// What the user chose for a posting.
#[derive(Debug, Clone, Copy, PartialEq, Eq, Structural)]
pub enum ApplyChoice {
    Apply,
    Dismiss,
    Cancel,
}

/// What the command does next.
#[derive(Debug, Clone, Copy, PartialEq, Eq, Structural)]
pub enum ApplyStep {
    /// Let the user pick a posting.
    Pick,
    /// Look the posting up.
    Look { id: i32 },
    /// Preview the posting and ask what to do.
    Confirm { id: i32 },
    /// Record an application for the posting.
    Record { id: i32 },
    /// Dismiss the posting.
    Dismiss { id: i32 },
    /// Say that nothing was recorded.
    Cancelled,
    /// Fail: there is no posting with the id.
    NoPosting { id: i32 },
    /// The command is over.
    Done,
}

/// What became of a step.
#[derive(Debug, Clone, Copy, PartialEq, Eq, Structural)]
pub enum ApplyEvent {
    /// What the picker gave; none if there was nothing to pick or it was quit.
    Picked(Option<i32>),
    /// Whether the posting exists.
    Looked(bool),
    /// What the user chose.
    Chose(ApplyChoice),
    /// The step is done.
    Finished,
}

/// Whether the posting is previewed and the user asked: on a terminal, unless it was
/// waived.
pub fn asks(yes: bool, is_terminal: bool) -> (r: bool)
    ensures
        r == (!yes && is_terminal),
{
    !yes && is_terminal
}

/// The first step: look up the posting that was named, or let the user pick one.
pub fn first_step(posting_id: Option<i32>) -> (r: ApplyStep)
    ensures
        r == (match posting_id {
            Some(id) => ApplyStep::Look { id },
            None => ApplyStep::Pick,
        }),
{
    match posting_id {
        Some(id) => ApplyStep::Look { id },
        None => ApplyStep::Pick,
    }
}

/// The step after one, given what became of it. With a posting that was named the
/// command ends after one choice; with the picker, cancelling or dismissing goes back
/// to it, and quitting it ends the command. `picking` is whether the picker is used,
/// `asking` whether the user is asked.
pub open spec fn step_after(
    step: ApplyStep,
    event: ApplyEvent,
    picking: bool,
    asking: bool,
) -> ApplyStep {
    match (step, event) {
        (ApplyStep::Pick, ApplyEvent::Picked(Some(id))) => ApplyStep::Look { id },
        (ApplyStep::Look { id }, ApplyEvent::Looked(found)) => if !found {
            ApplyStep::NoPosting { id }
        } else if asking {
            ApplyStep::Confirm { id }
        } else {
            ApplyStep::Record { id }
        },
        (ApplyStep::Confirm { id }, ApplyEvent::Chose(choice)) => match choice {
            ApplyChoice::Apply => ApplyStep::Record { id },
            ApplyChoice::Dismiss => ApplyStep::Dismiss { id },
            ApplyChoice::Cancel => if picking {
                ApplyStep::Pick
            } else {
                ApplyStep::Cancelled
            },
        },
        (ApplyStep::Dismiss { id }, ApplyEvent::Finished) => if picking {
            ApplyStep::Pick
        } else {
            ApplyStep::Done
        },
        _ => ApplyStep::Done,
    }
}

/// The step after one, given what became of it.
pub fn next_step(step: ApplyStep, event: ApplyEvent, picking: bool, asking: bool) -> (r: ApplyStep)
    ensures
        r == step_after(step, event, picking, asking),
{
    match (step, event) {
        (ApplyStep::Pick, ApplyEvent::Picked(Some(id))) => ApplyStep::Look { id },
        (ApplyStep::Look { id }, ApplyEvent::Looked(found)) => if !found {
            ApplyStep::NoPosting { id }
        } else if asking {
            ApplyStep::Confirm { id }
        } else {
            ApplyStep::Record { id }
        },
        (ApplyStep::Confirm { id }, ApplyEvent::Chose(choice)) => match choice {
            ApplyChoice::Apply => ApplyStep::Record { id },
            ApplyChoice::Dismiss => ApplyStep::Dismiss { id },
            ApplyChoice::Cancel => if picking {
                ApplyStep::Pick
            } else {
                ApplyStep::Cancelled
            },
        },
        (ApplyStep::Dismiss { id: _ }, ApplyEvent::Finished) => if picking {
            ApplyStep::Pick
        } else {
            ApplyStep::Done
        },
        _ => ApplyStep::Done,
    }
}

/// An application is recorded only for a posting that was found, and only when the
/// user was not to be asked or chose to apply.
pub proof fn recording_needs_consent(
    step: ApplyStep,
    event: ApplyEvent,
    picking: bool,
    asking: bool,
    id: i32,
)
    requires
        step_after(step, event, picking, asking) == (ApplyStep::Record { id }),
    ensures
        (step == (ApplyStep::Look { id }) && event == ApplyEvent::Looked(true) && !asking) || (step
            == (ApplyStep::Confirm { id }) && event == ApplyEvent::Chose(ApplyChoice::Apply)),
{
}

/// A posting that was named is never followed by the picker.
pub proof fn a_named_posting_never_picks(step: ApplyStep, event: ApplyEvent, asking: bool)
    ensures
        step_after(step, event, false, asking) != ApplyStep::Pick,
{
}

/// Nobody is asked where asking is waived.
pub proof fn waived_is_never_asked(step: ApplyStep, event: ApplyEvent, picking: bool, id: i32)
    ensures
        step_after(step, event, picking, false) != (ApplyStep::Confirm { id }),
{
}

/// The items of the menu under a preview.
#[derive(Debug, Clone, Copy, PartialEq, Eq, Structural)]
pub enum MenuItem {
    Apply,
    View,
    Dismiss,
    Cancel,
}

/// The item of the menu at a position; leaving the menu counts as cancelling.
pub fn menu_item(selection: Option<usize>) -> (r: MenuItem)
    ensures
        r == (match selection {
            Some(0) => MenuItem::Apply,
            Some(1) => MenuItem::View,
            Some(2) => MenuItem::Dismiss,
            _ => MenuItem::Cancel,
        }),
{
    match selection {
        Some(0) => MenuItem::Apply,
        Some(1) => MenuItem::View,
        Some(2) => MenuItem::Dismiss,
        _ => MenuItem::Cancel,
    }
}

// ---------------------------------------------------------------------------
// The picker
// ---------------------------------------------------------------------------

/// A text of at most `max` characters: trimmed, and with a mark at its end if it had
/// to be cut.
pub open spec fn truncated(s: Seq<char>, max: nat) -> Seq<char> {
    let t = trim(s);
    if t.len() <= max {
        t
    } else if max == 0 {
        Seq::empty()
    } else {
        t.take(max - 1).push('…')
    }
}

/// Truncate to at most `max` characters, ending in `…` when clipped.
pub fn truncate(s: &str, max: usize) -> (r: String)
    ensures
        r@ == truncated(s@, max as nat),
        r@.len() <= max,
{
    let t = trim_text(s);
    if chars_of(t.as_str()).len() <= max {
        t
    } else if max == 0 {
        String::new()
    } else {
        let mut kept = prefix_text(t.as_str(), max - 1);
        kept.push('…');
        kept
    }
}

/// The most characters of a reason in the picker.
pub const REASON_MAX: usize = 72;

/// The reason for the score behind an item of the picker, if there is one.
pub open spec fn reason_suffix(reason: Option<Seq<char>>) -> Seq<char> {
    match reason {
        Some(r) => "  ·  "@ + truncated(r, REASON_MAX as nat),
        None => Seq::empty(),
    }
}

/// An item of the picker.
pub open spec fn picker_item(row: PostingRow) -> Seq<char> {
    badge_of(row.0.score) + " #"@ + decimal_int(row.0.id as int) + " "@ + row.0.title@ + " — "@
        + name_of(row.1) + reason_suffix(opt_text(row.0.score_reason))
}

/// An item of the picker: badge, id, title, company and the reason for the score, so
/// that the role is legible before it is looked at.
pub fn picker_label(row: &PostingRow) -> (r: String)
    ensures
        r@ == picker_item(*row),
{
    let mut s = badge(&row.0);
    s.append(" #");
    s.append(i32_text(row.0.id).as_str());
    s.append(" ");
    s.append(row.0.title.as_str());
    s.append(" — ");
    s.append(company_name(&row.1));
    let ghost named = s@;
    match &row.0.score_reason {
        Some(reason) => {
            s.append("  ·  ");
            s.append(truncate(reason.as_str(), REASON_MAX).as_str());
        },
        None => {},
    }
    assert(s@ =~= named + reason_suffix(opt_text(row.0.score_reason)));
    s
}

/// The id of the posting at the picked position; none if the picker was quit.
pub fn picked_id(rows: &Vec<PostingRow>, selection: Option<usize>) -> (r: Option<i32>)
    requires
        selection matches Some(i) ==> i < rows@.len(),
    ensures
        r == (match selection {
            Some(i) => Some(rows@[i as int].0.id),
            None => None,
        }),
{
    match selection {
        Some(i) => Some(rows[i].0.id),
        None => None,
    }
}

/// What is said when the picker is needed and there is no terminal.
pub const NO_TERMINAL: &'static str =
    "no posting id given and stdin is not a terminal — pass an id, e.g. `jobpipe apply 3909`";

/// What is said after the choice to cancel.
pub const CANCELLED_LINE: &'static str = "Cancelled — no application recorded.";

/// What is said when there is nothing to pick.
pub fn nothing_to_pick() -> (r: String)
    ensures
        r@ == "No unapplied postings at score >= "@ + decimal_int(DEFAULT_MIN_SCORE as int)
            + " — apply by id with `jobpipe apply <id>`, lower the bar via `jobpipe digest --min-score N`, or `jobpipe fetch` for more."@,
        DEFAULT_MIN_SCORE == 7,
{
    let mut s = "No unapplied postings at score >= ".to_owned();
    s.append(i32_text(DEFAULT_MIN_SCORE).as_str());
    s.append(
        " — apply by id with `jobpipe apply <id>`, lower the bar via `jobpipe digest --min-score N`, or `jobpipe fetch` for more.",
    );
    s
}

// ---------------------------------------------------------------------------
// What is said
// ---------------------------------------------------------------------------

/// What is said when there is no posting with the id.
pub fn no_posting(id: i32) -> (r: String)
    ensures
        r@ == "no posting with id "@ + decimal_int(id as int) + " — check `jobpipe digest`"@,
{
    let mut s = "no posting with id ".to_owned();
    s.append(i32_text(id).as_str());
    s.append(" — check `jobpipe digest`");
    s
}

/// What is said when an application exists already.
pub fn already_applied_line(
    p: &posting::Model,
    c: &Option<company::Model>,
    a: &application::Model,
) -> (r: String)
    ensures
        r@ == "Already applied to \""@ + p.title@ + "\" — "@ + name_of(*c) + " (application #"@
            + decimal_int(a.id as int) + ", stage "@ + a.stage@ + ")."@,
{
    let mut s = "Already applied to \"".to_owned();
    s.append(p.title.as_str());
    s.append("\" — ");
    s.append(company_name(c));
    s.append(" (application #");
    s.append(i32_text(a.id).as_str());
    s.append(", stage ");
    s.append(a.stage.as_str());
    s.append(").");
    s
}

/// What is said after an application was recorded under an id.
pub fn recorded_line(id: i32, p: &posting::Model, c: &Option<company::Model>) -> (r: String)
    ensures
        r@ == "Recorded application #"@ + decimal_int(id as int) + ": \""@ + p.title@ + "\" — "@
            + name_of(*c) + "."@,
{
    let mut s = "Recorded application #".to_owned();
    s.append(i32_text(id).as_str());
    s.append(": \"");
    s.append(p.title.as_str());
    s.append("\" — ");
    s.append(company_name(c));
    s.append(".");
    s
}

/// Where to apply.
pub fn apply_line(p: &posting::Model) -> (r: String)
    ensures
        r@ == "Apply: "@ + p.apply_url@,
{
    let mut s = "Apply: ".to_owned();
    s.append(p.apply_url.as_str());
    s
}

/// What is said after a posting was dismissed.
pub fn dismissed_line(p: &posting::Model, c: &Option<company::Model>) -> (r: String)
    ensures
        r@ == "Dismissed #"@ + decimal_int(p.id as int) + " \""@ + p.title@ + "\" — "@ + name_of(*c)
            + ". Restore with `jobpipe dismiss "@ + decimal_int(p.id as int) + " --undo`."@,
{
    let mut s = "Dismissed #".to_owned();
    s.append(i32_text(p.id).as_str());
    s.append(" \"");
    s.append(p.title.as_str());
    s.append("\" — ");
    s.append(company_name(c));
    s.append(". Restore with `jobpipe dismiss ");
    s.append(i32_text(p.id).as_str());
    s.append(" --undo`.");
    s
}

/// What is said after a posting was restored.
pub fn restored_line(p: &posting::Model) -> (r: String)
    ensures
        r@ == "Restored #"@ + decimal_int(p.id as int) + " \""@ + p.title@ + "\" to the digest."@,
{
    let mut s = "Restored #".to_owned();
    s.append(i32_text(p.id).as_str());
    s.append(" \"");
    s.append(p.title.as_str());
    s.append("\" to the digest.");
    s
}

} // verus!
