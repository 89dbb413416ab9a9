//! `track`, `stage` and `untrack`: the applications.

use vstd::prelude::*;

use crate::db::entities::posting;
use crate::db::queries::applications::AppRow;
use crate::report::{company_name, name_of};
use crate::text::number::{
    decimal, decimal_int, i32_text, pad_right, padded_right, usize_text,
};
use crate::text::search::{cut, cut_at};
use crate::text::opt_str;

verus! {

/// The date part of a timestamp: what stands before the first `T`.
pub open spec fn date_of(ts: Seq<char>) -> Seq<char> {
    match cut(ts, 'T') {
        Some((d, _)) => d,
        None => ts,
    }
}

/// The date part of a timestamp.
pub fn applied_date(ts: &str) -> (r: String)
    ensures
        r@ == date_of(ts@),
{
    match cut_at(ts, 'T') {
        Some((d, _)) => d,
        None => ts.to_owned(),
    }
}

/// The title of a posting, if it is still there.
pub open spec fn title_or_gone(p: Option<posting::Model>) -> Seq<char> {
    match p {
        Some(p) => p.title@,
        None => "(posting gone)"@,
    }
}

/// The title of a posting, if it is still there.
pub(crate) fn title_of_opt(p: &Option<posting::Model>) -> (r: &str)
    ensures
        r@ == title_or_gone(*p),
{
    match p {
        Some(p) => p.title.as_str(),
        None => "(posting gone)",
    }
}

/// What the list says of an application.
pub open spec fn app_entry(row: AppRow) -> Seq<char> {
    "app #"@ + pad_right(decimal_int(row.0.id as int), 4) + " job #"@ + pad_right(
        decimal_int(row.0.posting_id as int),
        5,
    ) + " "@ + pad_right(row.0.stage@, 9) + " "@ + title_or_gone(row.1) + "  —  "@ + name_of(row.2)
        + "  (applied "@ + date_of(row.0.applied_at@) + ")\n"@
}

/// The entries of the list, one after the other.
pub open spec fn app_entries(rows: Seq<AppRow>) -> Seq<char>
    decreases rows.len(),
{
    if rows.len() == 0 {
        Seq::empty()
    } else {
        app_entries(rows.drop_last()) + app_entry(rows.last())
    }
}

/// The list of applications.
pub open spec fn app_list(rows: Seq<AppRow>, stage: Option<Seq<char>>) -> Seq<char> {
    if rows.len() == 0 {
        match stage {
            Some(s) => "No "@ + s + " applications.\n"@,
            None => "No applications.\n"@,
        }
    } else {
        app_entries(rows) + ("\n"@ + decimal(rows.len()) + " open application(s).\n"@)
    }
}

/// What the list says of an application.
fn entry_text(row: &AppRow) -> (r: String)
    ensures
        r@ == app_entry(*row),
{
    let mut s = "app #".to_owned();
    s.append(padded_right(i32_text(row.0.id).as_str(), 4).as_str());
    s.append(" job #");
    s.append(padded_right(i32_text(row.0.posting_id).as_str(), 5).as_str());
    s.append(" ");
    s.append(padded_right(row.0.stage.as_str(), 9).as_str());
    s.append(" ");
    s.append(title_of_opt(&row.1));
    s.append("  —  ");
    s.append(company_name(&row.2));
    s.append("  (applied ");
    s.append(applied_date(row.0.applied_at.as_str()).as_str());
    s.append(")\n");
    s
}

/// Show applications.
pub fn track_report(rows: &Vec<AppRow>, stage: Option<&str>) -> (r: String)
    ensures
        r@ == app_list(rows@, opt_str(stage)),
{
    if rows.len() == 0 {
        return match stage {
            Some(name) => {
                let mut s = "No ".to_owned();
                s.append(name);
                s.append(" applications.\n");
                s
            },
            None => "No applications.\n".to_owned(),
        };
    }
    let mut out = String::new();
    let mut i: usize = 0;
    assert(out@ =~= app_entries(rows@.take(0)));
    while i < rows.len()
        invariant
            i <= rows.len(),
            out@ == app_entries(rows@.take(i as int)),
        decreases rows.len() - i,
    {
        out.append(entry_text(&rows[i]).as_str());
        assert(rows@.take(i + 1).drop_last() =~= rows@.take(i as int));
        assert(rows@.take(i + 1).last() == rows@[i as int]);
        i += 1;
    }
    assert(rows@.take(rows.len() as int) =~= rows@);
    let ghost entries = out@;
    out.append("\n");
    out.append(usize_text(rows.len()).as_str());
    out.append(" open application(s).\n");
    assert(out@ =~= entries + ("\n"@ + decimal(rows@.len()) + " open application(s).\n"@));
    out
}

/// What is said when there is no application with the id.
pub fn no_application(id: i32) -> (r: String)
    ensures
        r@ == "no application with id "@ + decimal_int(id as int) + " — check `jobpipe track`"@,
{
    let mut s = "no application with id ".to_owned();
    s.append(i32_text(id).as_str());
    s.append(" — check `jobpipe track`");
    s
}

/// What is said after an application was moved to a stage.
pub fn moved_line(id: i32, stage: &str) -> (r: String)
    ensures
        r@ == "Application #"@ + decimal_int(id as int) + " → "@ + stage@ + "."@,
{
    let mut s = "Application #".to_owned();
    s.append(i32_text(id).as_str());
    s.append(" → ");
    s.append(stage);
    s.append(".");
    s
}

/// What is said after an application was removed.
pub fn removed_line(id: i32, posting: &Option<posting::Model>) -> (r: String)
    ensures
        r@ == "Removed application #"@ + decimal_int(id as int) + ": \""@ + title_or_gone(*posting)
            + "\"."@,
{
    let mut s = "Removed application #".to_owned();
    s.append(i32_text(id).as_str());
    s.append(": \"");
    s.append(title_of_opt(posting));
    s.append("\".");
    s
}

} // verus!
