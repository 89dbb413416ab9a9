//! `followup`: which applications are due for a nudge.

use vstd::prelude::*;

use crate::clock::{days_from, days_since, opt_int, rfc3339_instant, whole_days, Instant};
use crate::commands::track::{title_of_opt, title_or_gone};
use crate::db::entities::application;
use crate::db::queries::applications::{is_moved, AppRow};
use crate::report::{company_name, name_of};
use crate::text::number::{decimal, decimal_int, i32_text, i64_text, usize_text};
use crate::text::{opt_text, same_text};

verus! {

/// Days without a response after which a follow-up is suggested.
pub const FOLLOW_UP_DAYS: i64 = 7;

/// Days without a response after which giving up is suggested.
pub const GHOSTED_DAYS: i64 = 21;

/// Days of silence in an interview loop after which a check-in is suggested.
pub const CHECK_IN_DAYS: i64 = 5;

/// The suggestion for an application at a stage, given whether there was contact
/// since it was made and the days since the time that counts.
pub open spec fn advice(stage: Seq<char>, contacted: bool, days: Option<int>) -> Option<Seq<char>> {
    match days {
        Some(d) => if stage == "applied"@ {
            if contacted {
                None
            } else if d >= GHOSTED_DAYS {
                Some(decimal_int(d) + "d since applied, no response — consider marking ghosted"@)
            } else if d >= FOLLOW_UP_DAYS {
                Some(decimal_int(d) + "d since applied, no response — send a follow-up email"@)
            } else {
                None
            }
        } else if stage == "screen"@ || stage == "interview"@ {
            if d >= CHECK_IN_DAYS {
                Some(decimal_int(d) + "d since last contact in "@ + stage + " — send a check-in"@)
            } else {
                None
            }
        } else {
            None
        },
        None => None,
    }
}

/// The time that counts: in an interview loop the last contact, if there was one,
/// and else when the application was made.
pub open spec fn reference(a: application::Model) -> Seq<char> {
    if a.stage@ == "screen"@ || a.stage@ == "interview"@ {
        match opt_text(a.last_contact) {
            Some(t) => t,
            None => a.applied_at@,
        }
    } else {
        a.applied_at@
    }
}

/// The suggestion for an application.
pub open spec fn suggested(a: application::Model, now: Instant) -> Option<Seq<char>> {
    advice(a.stage@, a.last_contact is Some, days_from(reference(a), now))
}

/// The suggestion for an application at a stage, given whether there was contact
/// since it was made and the days since the time that counts.
pub fn advise(stage: &str, contacted: bool, days: Option<i64>) -> (r: Option<String>)
    ensures
        opt_text(r) == advice(stage@, contacted, opt_int(days)),
{
    let d: i64 = match days {
        Some(d) => d,
        None => {
            return None;
        },
    };
    if same_text(stage, "applied") {
        if contacted {
            None
        } else if d >= GHOSTED_DAYS {
            let mut s = i64_text(d);
            s.append("d since applied, no response — consider marking ghosted");
            Some(s)
        } else if d >= FOLLOW_UP_DAYS {
            let mut s = i64_text(d);
            s.append("d since applied, no response — send a follow-up email");
            Some(s)
        } else {
            None
        }
    } else if same_text(stage, "screen") || same_text(stage, "interview") {
        if d >= CHECK_IN_DAYS {
            let mut s = i64_text(d);
            s.append("d since last contact in ");
            s.append(stage);
            s.append(" — send a check-in");
            Some(s)
        } else {
            None
        }
    } else {
        None
    }
}

/// The suggestion for an application. With a timestamp that is not in a leap second
/// it goes by the whole days since then.
pub fn suggest(a: &application::Model, now: Instant) -> (r: Option<String>)
    requires
        now.is_plain(),
    ensures
        opt_text(r) == suggested(*a, now),
        rfc3339_instant(reference(*a)) is None ==> r is None,
        rfc3339_instant(reference(*a)) matches Some(t) ==> t.1 < 1_000_000_000 ==> opt_text(r)
            == advice(
            a.stage@,
            a.last_contact is Some,
            Some(whole_days((now.secs - t.0) * 1_000_000_000 + now.nanos - t.1)),
        ),
{
    let stage = a.stage.as_str();
    let in_loop = same_text(stage, "screen") || same_text(stage, "interview");
    let since = match &a.last_contact {
        Some(t) => if in_loop {
            t.as_str()
        } else {
            a.applied_at.as_str()
        },
        None => a.applied_at.as_str(),
    };
    let days = days_since(since, now);
    advise(stage, a.last_contact.is_some(), days)
}

/// What the report says of an application, if it is due.
pub open spec fn nudge(row: AppRow, now: Instant) -> Seq<char> {
    match suggested(row.0, now) {
        Some(s) => "#"@ + decimal_int(row.0.id as int) + " "@ + title_or_gone(row.1) + " — "@
            + name_of(row.2) + "\n    → "@ + s + "\n"@,
        None => Seq::empty(),
    }
}

/// What the report says of applications, one after the other.
pub open spec fn nudges(rows: Seq<AppRow>, now: Instant) -> Seq<char>
    decreases rows.len(),
{
    if rows.len() == 0 {
        Seq::empty()
    } else {
        nudges(rows.drop_last(), now) + nudge(rows.last(), now)
    }
}

/// The applications that are due.
pub open spec fn is_due(now: Instant) -> spec_fn(AppRow) -> bool {
    |row: AppRow| suggested(row.0, now) is Some
}

/// The report.
pub open spec fn followup_text(rows: Seq<AppRow>, now: Instant) -> Seq<char> {
    let due = rows.filter(is_due(now)).len();
    if due == 0 {
        nudges(rows, now) + "No follow-ups due.\n"@
    } else {
        nudges(rows, now) + ("\n"@ + decimal(due) + " follow-up(s) due.\n"@)
    }
}

/// Report the applications that are due for a nudge.
pub fn followup_report(rows: &Vec<AppRow>, now: Instant) -> (r: String)
    requires
        now.is_plain(),
    ensures
        r@ == followup_text(rows@, now),
{
    let mut out = String::new();
    let mut due: usize = 0;
    let mut i: usize = 0;
    proof {
        reveal(Seq::filter);
        assert(rows@.take(0).filter(is_due(now)) =~= Seq::empty());
        assert(out@ =~= nudges(rows@.take(0), now));
    }
    while i < rows.len()
        invariant
            i <= rows.len(),
            now.is_plain(),
            due <= i,
            due == rows@.take(i as int).filter(is_due(now)).len(),
            out@ == nudges(rows@.take(i as int), now),
        decreases rows.len() - i,
    {
        let row = &rows[i];
        let ghost before = out@;
        proof {
            reveal(Seq::filter);
            assert(rows@.take(i + 1).drop_last() =~= rows@.take(i as int));
            assert(rows@.take(i + 1).last() == *row);
        }
        match suggest(&row.0, now) {
            Some(s) => {
                let mut line = "#".to_owned();
                line.append(i32_text(row.0.id).as_str());
                line.append(" ");
                line.append(title_of_opt(&row.1));
                line.append(" — ");
                line.append(company_name(&row.2));
                line.append("\n    → ");
                line.append(s.as_str());
                line.append("\n");
                out.append(line.as_str());
                due = due + 1;
            },
            None => {
                assert(before =~= before + nudge(*row, now));
            },
        }
        i += 1;
    }
    assert(rows@.take(rows.len() as int) =~= rows@);
    if due == 0 {
        out.append("No follow-ups due.\n");
    } else {
        let ghost entries = out@;
        out.append("\n");
        out.append(usize_text(due).as_str());
        out.append(" follow-up(s) due.\n");
        assert(out@ =~= entries + ("\n"@ + decimal(due as nat) + " follow-up(s) due.\n"@));
    }
    out
}

// ---------------------------------------------------------------------------
// Laws
// ---------------------------------------------------------------------------

/// Without a response, nothing is suggested in the first week, a follow-up from the
/// seventh day on, and giving up from the twenty-first. Once there was contact, an
/// application that is only applied for is left alone.
pub proof fn applied_is_nudged_by_age(days: int)
    ensures
        advice("applied"@, false, Some(days)) is None <==> days < 7,
        advice("applied"@, false, Some(days)) == Some(
            decimal_int(days) + "d since applied, no response — send a follow-up email"@,
        ) <== 7 <= days < 21,
        advice("applied"@, false, Some(days)) == Some(
            decimal_int(days) + "d since applied, no response — consider marking ghosted"@,
        ) <== 21 <= days,
        advice("applied"@, true, Some(days)) is None,
{
}

/// In an interview loop a check-in is suggested from the fifth day of silence on.
pub proof fn loops_are_nudged_after_five_days(stage: Seq<char>, contacted: bool, days: int)
    requires
        stage == "screen"@ || stage == "interview"@,
    ensures
        advice(stage, contacted, Some(days)) is Some <==> days >= 5,
{
    reveal_strlit("applied");
    reveal_strlit("screen");
    reveal_strlit("interview");
    assert("applied"@.len() == 7 && "screen"@.len() == 6 && "interview"@.len() == 9);
}

/// An application that is over, or has come to an offer, is never due.
pub proof fn settled_is_never_due(stage: Seq<char>, contacted: bool, days: Option<int>)
    requires
        stage == "offer"@ || stage == "rejected"@ || stage == "ghosted"@,
    ensures
        advice(stage, contacted, days) is None,
{
    reveal_strlit("applied");
    reveal_strlit("screen");
    reveal_strlit("interview");
    reveal_strlit("offer");
    reveal_strlit("rejected");
    reveal_strlit("ghosted");
    assert("applied"@.len() == 7 && "screen"@.len() == 6 && "interview"@.len() == 9);
    assert("offer"@.len() == 5 && "rejected"@.len() == 8 && "ghosted"@.len() == 7);
    assert("applied"@[0] == 'a' && "ghosted"@[0] == 'g');
}

/// Moving an application counts as contact: its clock starts again at that time, and
/// if it is only applied for it is no longer due.
pub proof fn moving_resets_the_clock(
    before: application::Model,
    after: application::Model,
    stage: Seq<char>,
    note: Option<Seq<char>>,
    moved_at: Seq<char>,
    today: Seq<char>,
    now: Instant,
)
    requires
        is_moved(stage, note, moved_at, today)(before, after),
    ensures
        stage == "screen"@ || stage == "interview"@ ==> reference(after) == moved_at,
        stage == "applied"@ ==> suggested(after, now) is None,
{
}

} // verus!
