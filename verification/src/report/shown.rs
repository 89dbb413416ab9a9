//! What the digest and the views of a posting show.

use vstd::prelude::*;

use crate::db::entities::{company, posting};
use crate::report::wrapping::wrapped;
use crate::report::{
    badge_of, detail_of, digest_text, head_line, md_entries, md_entry, name_of, place_of,
    reason_line, summary_of, term_entries, term_entry, Format, PostingRow,
};
use crate::text::number::{decimal, decimal_int, spaces};

verus! {

/// Where a posting is: a remote flag stands behind the location, whatever it is, unless
/// it says that the work is on site or says nothing. Without a location it stands alone.
pub proof fn places_show_what_is_known(p: posting::Model)
    ensures
        p.location matches Some(l) ==> (p.remote matches Some(r) ==> (r@ != "onsite"@ && r@
            != "unknown"@ ==> place_of(p) == l@ + " · "@ + r@)),
        p.location matches Some(l) ==> (p.remote matches Some(r) ==> (r@ == "onsite"@ || r@
            == "unknown"@ ==> place_of(p) == l@)),
        p.location matches Some(l) ==> (p.remote is None ==> place_of(p) == l@),
        p.location is None ==> (p.remote matches Some(r) ==> place_of(p) == r@),
        p.location is None && p.remote is None ==> place_of(p) == "location unknown"@,
{
}

/// A remote or hybrid posting is shown as one wherever it is.
pub proof fn remote_postings_show_it(p: posting::Model)
    requires
        p.location is Some,
        p.remote is Some,
        p.remote->Some_0@ == "remote"@ || p.remote->Some_0@ == "hybrid"@,
    ensures
        place_of(p) == p.location->Some_0@ + " · "@ + p.remote->Some_0@,
{
    reveal_strlit("remote");
    reveal_strlit("hybrid");
    reveal_strlit("onsite");
    reveal_strlit("unknown");
    assert("remote"@[0] == 'r' && "hybrid"@[0] == 'h' && "onsite"@[0] == 'o');
    assert("unknown"@[0] == 'u');
}

/// A badge shows the score itself, in two columns; without a score it shows a dash.
pub proof fn badges_show_the_score(score: i32)
    ensures
        0 <= score <= 9 ==> badge_of(Some(score)) == "[ "@ + decimal_int(score as int) + "]"@,
        score >= 10 || score < 0 ==> badge_of(Some(score)) == "["@ + decimal_int(score as int)
            + "]"@,
        badge_of(None) == "[ –]"@,
{
    reveal_strlit("[ ");
    reveal_strlit("[");
    reveal_strlit("]");
    let d = decimal_int(score as int);
    if 0 <= score <= 9 {
        assert(d.len() == 1);
        assert(spaces(1) =~= seq![' ']);
        assert(badge_of(Some(score)) =~= "[ "@ + d + "]"@);
    } else if score >= 10 {
        crate::text::number::decimal_denotes((score / 10) as nat);
        assert(d.len() >= 2);
    } else {
        crate::text::number::decimal_denotes((-score) as nat);
        assert(d.len() >= 2);
    }
}

/// A company is shown under its name.
pub proof fn companies_are_shown_by_name(c: company::Model)
    ensures
        name_of(Some(c)) == c.name@,
        name_of(None) == "(unknown)"@,
{
}

/// A summary shows, line by line: the badge, the id, the title and the company; the
/// place; and the reason for the score, if there is one.
pub proof fn summaries_show_the_posting(p: posting::Model, c: Option<company::Model>)
    ensures
        ({
            let head = badge_of(p.score) + " #"@ + decimal_int(p.id as int) + "  "@ + p.title@
                + "  —  "@ + name_of(c) + "\n"@;
            let place = "  "@ + place_of(p) + "\n"@;
            &&& p.score_reason matches Some(r) ==> summary_of((p, c)) == head + place + ("  "@ + r@
                + "\n"@)
            &&& p.score_reason is None ==> summary_of((p, c)) == head + place
        }),
{
    if p.score_reason is None {
        assert(summary_of((p, c)) =~= head_line((p, c)) + ("  "@ + place_of(p) + "\n"@));
    }
}

/// The full view shows the summary, where to apply, and the whole description, wrapped
/// to 96 columns.
pub proof fn details_show_the_description(p: posting::Model, c: Option<company::Model>)
    ensures
        detail_of((p, c)) == summary_of((p, c)) + "  apply: "@ + p.apply_url@ + "\n\n"@ + wrapped(
            p.description@,
            96,
        ) + "\n"@,
{
}

/// An entry of the terminal digest shows the summary, where to apply and how: a link where
/// links are clickable, and the address itself where they are not.
pub proof fn terminal_entries_show_the_posting(p: posting::Model, c: Option<company::Model>)
    ensures
        term_entry((p, c), false) == "\n"@ + summary_of((p, c)) + ("  "@ + p.apply_url@ + "\n"@) + (
        "  → jobpipe apply "@ + decimal_int(p.id as int) + "\n"@),
        term_entry((p, c), true) == "\n"@ + summary_of((p, c)) + ("  "@ + ("\x1b]8;;"@
            + p.apply_url@ + "\x1b\\"@ + "Apply in browser ↗"@ + "\x1b]8;;\x1b\\"@) + "\n"@) + (
        "  → jobpipe apply "@ + decimal_int(p.id as int) + "\n"@),
{
}

/// An entry of the markdown digest shows the badge, the id, the title as a link to where
/// to apply, the company and the place, the reason, and how to apply.
pub proof fn markdown_entries_show_the_posting(p: posting::Model, c: Option<company::Model>)
    ensures
        ({
            let head = "- **"@ + badge_of(p.score) + " #"@ + decimal_int(p.id as int) + " ["@
                + p.title@ + "]("@ + p.apply_url@ + ")** — "@ + name_of(c) + " · "@ + place_of(p)
                + "\n"@;
            let how = "  - `jobpipe apply "@ + decimal_int(p.id as int) + "`\n"@;
            &&& p.score_reason matches Some(r) ==> md_entry((p, c)) == head + ("  - "@ + r@
                + "\n"@) + how
            &&& p.score_reason is None ==> md_entry((p, c)) == head + how
        }),
{
    if p.score_reason is None {
        let head = "- **"@ + badge_of(p.score) + " #"@ + decimal_int(p.id as int) + " ["@ + p.title@
            + "]("@ + p.apply_url@ + ")** — "@ + name_of(c) + " · "@ + place_of(p) + "\n"@;
        assert(head + reason_line(p, "  - "@) =~= head);
    }
}

/// The digest shows every posting, once and in the order of the rows, under a heading
/// with their number.
pub proof fn digests_show_every_posting(rows: Seq<PostingRow>, hyperlinks: bool, i: int)
    requires
        0 <= i < rows.len(),
    ensures
        digest_text(rows, Format::Term, hyperlinks) == ("jobpipe digest — "@ + decimal(rows.len())
            + " open posting(s)\n"@ + "================================================"@ + "\n"@)
            + (term_entries(rows.take(i), hyperlinks) + term_entry(rows[i], hyperlinks)
            + term_entries(rows.skip(i + 1), hyperlinks)),
        digest_text(rows, Format::Md, hyperlinks) == ("# jobpipe digest\n\n"@ + decimal(rows.len())
            + " open posting(s).\n\n"@) + (md_entries(rows.take(i)) + md_entry(rows[i])
            + md_entries(rows.skip(i + 1))),
{
    let a = rows.take(i);
    let b = rows.skip(i + 1);
    lemma_entries_concat(a.push(rows[i]), b, hyperlinks);
    assert(a.push(rows[i]) + b =~= rows);
    assert(a.push(rows[i]).drop_last() =~= a);
}

/// Without postings the digest says so.
pub proof fn empty_digests_say_so(hyperlinks: bool)
    ensures
        digest_text(Seq::empty(), Format::Term, hyperlinks) == "No open postings.\n"@,
        digest_text(Seq::empty(), Format::Md, hyperlinks)
            == "# jobpipe digest\n\n_No open postings._\n"@,
{
}

/// The entries of rows and further rows.
proof fn lemma_entries_concat(a: Seq<PostingRow>, b: Seq<PostingRow>, hyperlinks: bool)
    ensures
        term_entries(a + b, hyperlinks) == term_entries(a, hyperlinks) + term_entries(
            b,
            hyperlinks,
        ),
        md_entries(a + b) == md_entries(a) + md_entries(b),
    decreases b.len(),
{
    if b.len() == 0 {
        assert(a + b =~= a);
        lemma_nothing_behind(term_entries(a, hyperlinks));
        lemma_nothing_behind(md_entries(a));
    } else {
        let d = b.drop_last();
        lemma_entries_concat(a, d, hyperlinks);
        assert((a + b).drop_last() =~= a + d);
        assert((a + b).last() == b.last());
        lemma_regroup(
            term_entries(a, hyperlinks),
            term_entries(d, hyperlinks),
            term_entry(b.last(), hyperlinks),
        );
        lemma_regroup(md_entries(a), md_entries(d), md_entry(b.last()));
    }
}

/// Nothing behind a text leaves it as it is.
proof fn lemma_nothing_behind(x: Seq<char>)
    ensures
        x + Seq::<char>::empty() == x,
{
    assert(x + Seq::<char>::empty() =~= x);
}

/// Texts one after the other, however they are grouped.
proof fn lemma_regroup(x: Seq<char>, y: Seq<char>, z: Seq<char>)
    ensures
        (x + y) + z == x + (y + z),
{
    assert((x + y) + z =~= x + (y + z));
}

} // verus!
