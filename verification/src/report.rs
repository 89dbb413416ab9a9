//! Rendering of the digest and of single postings.

pub mod plain;
pub mod shown;
pub mod wrapping;

use vstd::prelude::*;

use crate::db::entities::{company, posting};
use crate::report::wrapping::{wrap, wrapped};
use crate::text::number::{decimal, decimal_int, i32_text, pad_left, padded_left, usize_text};
use crate::text::{opt_text, same_text};

verus! {

/// The digest's output formats.
#[derive(Debug, Clone, Copy, PartialEq, Eq, Structural)]
pub enum Format {
    Term,
    Md,
}

/// A posting paired with its company.
pub type PostingRow = (posting::Model, Option<company::Model>);

/// The columns that a description is wrapped to.
pub const DETAIL_WIDTH: usize = 96;

/// The text of a clickable link.
pub const LINK_TEXT: &'static str = "Apply in browser ↗";

// ---------------------------------------------------------------------------
// Parts
// ---------------------------------------------------------------------------

/// A text as a terminal hyperlink to an address.
pub open spec fn link_to(url: Seq<char>, text: Seq<char>) -> Seq<char> {
    "\x1b]8;;"@ + url + "\x1b\\"@ + text + "\x1b]8;;\x1b\\"@
}

/// Wrap `text` in an OSC 8 terminal hyperlink pointing at `url`. Terminals that do
/// not understand the sequence ignore it and show `text` alone.
pub fn osc8(url: &str, text: &str) -> (r: String)
    ensures
        r@ == link_to(url@, text@),
{
    let mut s = "\x1b]8;;".to_owned();
    s.append(url);
    s.append("\x1b\\");
    s.append(text);
    s.append("\x1b]8;;\x1b\\");
    s
}

/// The name of a company, if it is known.
pub open spec fn name_of(c: Option<company::Model>) -> Seq<char> {
    match c {
        Some(c) => c.name@,
        None => "(unknown)"@,
    }
}

/// The name of a company, if it is known.
pub fn company_name(c: &Option<company::Model>) -> (r: &str)
    ensures
        r@ == name_of(*c),
{
    match c {
        Some(c) => c.name.as_str(),
        None => "(unknown)",
    }
}

/// Where a posting is: its location, with the remote flag if that adds something.
pub open spec fn place_of(p: posting::Model) -> Seq<char> {
    match (opt_text(p.location), opt_text(p.remote)) {
        (Some(l), Some(r)) => if r != "onsite"@ && r != "unknown"@ {
            l + " · "@ + r
        } else {
            l
        },
        (Some(l), None) => l,
        (None, Some(r)) => r,
        (None, None) => "location unknown"@,
    }
}

/// Where a posting is.
pub fn loc(p: &posting::Model) -> (r: String)
    ensures
        r@ == place_of(*p),
{
    match (&p.location, &p.remote) {
        (Some(l), Some(r)) => {
            let mut s = l.clone();
            if !same_text(r.as_str(), "onsite") && !same_text(r.as_str(), "unknown") {
                s.append(" · ");
                s.append(r.as_str());
            }
            s
        },
        (Some(l), None) => l.clone(),
        (None, Some(r)) => r.clone(),
        (None, None) => "location unknown".to_owned(),
    }
}

/// A score in brackets, padded to two columns; a dash, padded alike, for a posting
/// without a score.
pub open spec fn badge_of(score: Option<i32>) -> Seq<char> {
    match score {
        Some(s) => "["@ + pad_left(decimal_int(s as int), 2) + "]"@,
        None => "[ –]"@,
    }
}

/// A score badge like `[ 9]`, or `[ –]` when a posting has not been triaged yet.
pub fn badge(p: &posting::Model) -> (r: String)
    ensures
        r@ == badge_of(p.score),
{
    match p.score {
        Some(n) => {
            let mut s = "[".to_owned();
            s.append(padded_left(i32_text(n).as_str(), 2).as_str());
            s.append("]");
            s
        },
        None => "[ –]".to_owned(),
    }
}

/// The line with badge, id, title and company.
pub open spec fn head_line(row: PostingRow) -> Seq<char> {
    badge_of(row.0.score) + " #"@ + decimal_int(row.0.id as int) + "  "@ + row.0.title@ + "  —  "@
        + name_of(row.1) + "\n"@
}

/// A line with the reason for the score, if there is one.
pub open spec fn reason_line(p: posting::Model, indent: Seq<char>) -> Seq<char> {
    match opt_text(p.score_reason) {
        Some(reason) => indent + reason + "\n"@,
        None => Seq::empty(),
    }
}

/// The head line, the location and the reason.
pub open spec fn summary_of(row: PostingRow) -> Seq<char> {
    head_line(row) + ("  "@ + place_of(row.0) + "\n"@) + reason_line(row.0, "  "@)
}

/// Append a line with the reason for the score, if there is one.
fn append_reason(out: &mut String, p: &posting::Model, indent: &str)
    ensures
        final(out)@ == old(out)@ + reason_line(*p, indent@),
{
    match &p.score_reason {
        Some(reason) => {
            out.append(indent);
            out.append(reason.as_str());
            out.append("\n");
            assert(out@ =~= old(out)@ + reason_line(*p, indent@));
        },
        None => {
            assert(out@ =~= old(out)@ + reason_line(*p, indent@));
        },
    }
}

/// A one-glance summary of a posting: score badge, title, company, location, and
/// the line with the reason for the score.
pub fn summary(p: &posting::Model, c: &Option<company::Model>) -> (r: String)
    ensures
        r@ == summary_of((*p, *c)),
{
    let mut out = badge(p);
    out.append(" #");
    out.append(i32_text(p.id).as_str());
    out.append("  ");
    out.append(p.title.as_str());
    out.append("  —  ");
    out.append(company_name(c));
    out.append("\n");
    assert(out@ == head_line((*p, *c)));
    out.append("  ");
    out.append(loc(p).as_str());
    out.append("\n");
    assert(out@ =~= head_line((*p, *c)) + ("  "@ + place_of(*p) + "\n"@));
    append_reason(&mut out, p, "  ");
    out
}

/// The summary, the apply address and the whole description, wrapped.
pub open spec fn detail_of(row: PostingRow) -> Seq<char> {
    summary_of(row) + "  apply: "@ + row.0.apply_url@ + "\n\n"@ + wrapped(
        row.0.description@,
        DETAIL_WIDTH as nat,
    ) + "\n"@
}

/// Full detail of a posting: the summary plus the apply address and the whole job
/// description, word-wrapped for readability.
pub fn detail(p: &posting::Model, c: &Option<company::Model>) -> (r: String)
    ensures
        r@ == detail_of((*p, *c)),
{
    let mut out = summary(p, c);
    out.append("  apply: ");
    out.append(p.apply_url.as_str());
    out.append("\n\n");
    out.append(wrap(p.description.as_str(), DETAIL_WIDTH).as_str());
    out.append("\n");
    out
}

// ---------------------------------------------------------------------------
// The digest
// ---------------------------------------------------------------------------

/// How the apply address is shown in a terminal.
pub open spec fn link_line(url: Seq<char>, hyperlinks: bool) -> Seq<char> {
    "  "@ + (if hyperlinks {
        link_to(url, LINK_TEXT@)
    } else {
        url
    }) + "\n"@
}

/// What the terminal digest says of a posting.
pub open spec fn term_entry(row: PostingRow, hyperlinks: bool) -> Seq<char> {
    "\n"@ + summary_of(row) + link_line(row.0.apply_url@, hyperlinks) + ("  → jobpipe apply "@
        + decimal_int(row.0.id as int) + "\n"@)
}

/// What the markdown digest says of a posting.
pub open spec fn md_entry(row: PostingRow) -> Seq<char> {
    ("- **"@ + badge_of(row.0.score) + " #"@ + decimal_int(row.0.id as int) + " ["@ + row.0.title@
        + "]("@ + row.0.apply_url@ + ")** — "@ + name_of(row.1) + " · "@ + place_of(row.0)
        + "\n"@) + reason_line(row.0, "  - "@) + ("  - `jobpipe apply "@ + decimal_int(
        row.0.id as int,
    ) + "`\n"@)
}

/// The entries of the terminal digest, one after the other.
pub open spec fn term_entries(rows: Seq<PostingRow>, hyperlinks: bool) -> Seq<char>
    decreases rows.len(),
{
    if rows.len() == 0 {
        Seq::empty()
    } else {
        term_entries(rows.drop_last(), hyperlinks) + term_entry(rows.last(), hyperlinks)
    }
}

/// The entries of the markdown digest, one after the other.
pub open spec fn md_entries(rows: Seq<PostingRow>) -> Seq<char>
    decreases rows.len(),
{
    if rows.len() == 0 {
        Seq::empty()
    } else {
        md_entries(rows.drop_last()) + md_entry(rows.last())
    }
}

/// The rule under the heading: 48 columns.
pub const RULE: &'static str = "================================================";

/// The digest.
pub open spec fn digest_text(rows: Seq<PostingRow>, format: Format, hyperlinks: bool) -> Seq<char> {
    match format {
        Format::Term => if rows.len() == 0 {
            "No open postings.\n"@
        } else {
            ("jobpipe digest — "@ + decimal(rows.len()) + " open posting(s)\n"@ + RULE@ + "\n"@)
                + term_entries(rows, hyperlinks)
        },
        Format::Md => if rows.len() == 0 {
            "# jobpipe digest\n\n_No open postings._\n"@
        } else {
            ("# jobpipe digest\n\n"@ + decimal(rows.len()) + " open posting(s).\n\n"@)
                + md_entries(rows)
        },
    }
}

/// What the terminal digest says of a posting.
fn entry_for_term(row: &PostingRow, hyperlinks: bool) -> (r: String)
    ensures
        r@ == term_entry(*row, hyperlinks),
{
    let mut out = "\n".to_owned();
    out.append(summary(&row.0, &row.1).as_str());
    let ghost head = out@;
    out.append("  ");
    if hyperlinks {
        out.append(osc8(row.0.apply_url.as_str(), LINK_TEXT).as_str());
    } else {
        out.append(row.0.apply_url.as_str());
    }
    out.append("\n");
    let ghost linked = out@;
    assert(linked =~= head + link_line(row.0.apply_url@, hyperlinks));
    out.append("  → jobpipe apply ");
    out.append(i32_text(row.0.id).as_str());
    out.append("\n");
    assert(out@ =~= linked + ("  → jobpipe apply "@ + decimal_int(row.0.id as int) + "\n"@));
    out
}

/// What the markdown digest says of a posting.
fn entry_for_md(row: &PostingRow) -> (r: String)
    ensures
        r@ == md_entry(*row),
{
    let mut out = "- **".to_owned();
    out.append(badge(&row.0).as_str());
    out.append(" #");
    out.append(i32_text(row.0.id).as_str());
    out.append(" [");
    out.append(row.0.title.as_str());
    out.append("](");
    out.append(row.0.apply_url.as_str());
    out.append(")** — ");
    out.append(company_name(&row.1));
    out.append(" · ");
    out.append(loc(&row.0).as_str());
    out.append("\n");
    append_reason(&mut out, &row.0, "  - ");
    let ghost reasoned = out@;
    out.append("  - `jobpipe apply ");
    out.append(i32_text(row.0.id).as_str());
    out.append("`\n");
    assert(out@ =~= reasoned + ("  - `jobpipe apply "@ + decimal_int(row.0.id as int) + "`\n"@));
    out
}

/// The digest for a terminal.
fn render_term(rows: &[PostingRow], hyperlinks: bool) -> (r: String)
    requires
        rows@.len() > 0,
    ensures
        r@ == digest_text(rows@, Format::Term, hyperlinks),
{
    let mut out = "jobpipe digest — ".to_owned();
    out.append(usize_text(rows.len()).as_str());
    out.append(" open posting(s)\n");
    out.append(RULE);
    out.append("\n");
    let ghost head = out@;
    let mut i: usize = 0;
    assert(out@ =~= head + term_entries(rows@.take(0), hyperlinks));
    while i < rows.len()
        invariant
            i <= rows.len(),
            out@ == head + term_entries(rows@.take(i as int), hyperlinks),
        decreases rows.len() - i,
    {
        out.append(entry_for_term(&rows[i], hyperlinks).as_str());
        assert(rows@.take(i + 1).drop_last() =~= rows@.take(i as int));
        assert(rows@.take(i + 1).last() == rows@[i as int]);
        assert(out@ =~= head + term_entries(rows@.take(i + 1), hyperlinks));
        i += 1;
    }
    assert(rows@.take(rows.len() as int) =~= rows@);
    out
}

/// The digest as markdown.
fn render_md(rows: &[PostingRow]) -> (r: String)
    requires
        rows@.len() > 0,
    ensures
        forall|hyperlinks: bool| r@ == #[trigger] digest_text(rows@, Format::Md, hyperlinks),
{
    let mut out = "# jobpipe digest\n\n".to_owned();
    out.append(usize_text(rows.len()).as_str());
    out.append(" open posting(s).\n\n");
    let ghost head = out@;
    let mut i: usize = 0;
    assert(out@ =~= head + md_entries(rows@.take(0)));
    while i < rows.len()
        invariant
            i <= rows.len(),
            out@ == head + md_entries(rows@.take(i as int)),
        decreases rows.len() - i,
    {
        out.append(entry_for_md(&rows[i]).as_str());
        assert(rows@.take(i + 1).drop_last() =~= rows@.take(i as int));
        assert(rows@.take(i + 1).last() == rows@[i as int]);
        assert(out@ =~= head + md_entries(rows@.take(i + 1)));
        i += 1;
    }
    assert(rows@.take(rows.len() as int) =~= rows@);
    out
}

/// Render the digest, in the order of the rows.
///
/// `hyperlinks` turns the terminal format's apply address into a clickable OSC 8
/// link; callers should ask for that only when the output is a real terminal, since
/// the escape sequences would otherwise leak into pipes and files.
pub fn render(rows: &[PostingRow], format: Format, hyperlinks: bool) -> (r: String)
    ensures
        r@ == digest_text(rows@, format, hyperlinks),
{
    if rows.len() == 0 {
        return match format {
            Format::Term => "No open postings.\n".to_owned(),
            Format::Md => "# jobpipe digest\n\n_No open postings._\n".to_owned(),
        };
    }
    match format {
        Format::Term => render_term(rows, hyperlinks),
        Format::Md => render_md(rows),
    }
}

} // verus!
