//! `companies`: adding to the company list and showing it.

use vstd::prelude::*;

use crate::commands::init::{company_ending, ending};
use crate::db::entities::company;
use crate::sniff::Detected;
use crate::text::number::{decimal, pad_right, padded_right, usize_text};
use crate::text::opt_text;

verus! {

/// What is said after a company was to be added.
pub fn added_line(detected: &Detected, url: &str, inserted: bool) -> (r: String)
    ensures
        r@ == if inserted {
            "Added "@ + detected.name@ + " — "@ + detected.ats@ + "/"@ + detected.slug@ + " ("@
                + url@ + ")."@
        } else {
            "Already tracked: "@ + detected.ats@ + "/"@ + detected.slug@ + " — nothing added."@
        },
{
    if inserted {
        let mut s = "Added ".to_owned();
        s.append(detected.name.as_str());
        s.append(" — ");
        s.append(detected.ats.as_str());
        s.append("/");
        s.append(detected.slug.as_str());
        s.append(" (");
        s.append(url);
        s.append(").");
        s
    } else {
        let mut s = "Already tracked: ".to_owned();
        s.append(detected.ats.as_str());
        s.append("/");
        s.append(detected.slug.as_str());
        s.append(" — nothing added.");
        s
    }
}

/// A line with a company's labels, if it has any.
pub open spec fn tags_line(c: company::Model) -> Seq<char> {
    match opt_text(c.tags) {
        Some(t) => if t.len() > 0 {
            "            tags: "@ + t + "\n"@
        } else {
            Seq::empty()
        },
        None => Seq::empty(),
    }
}

/// The mark of a company that needs review.
pub open spec fn review_mark(c: company::Model) -> Seq<char> {
    if c.needs_review == 1 {
        " [needs-review]"@
    } else {
        Seq::empty()
    }
}

/// What the list says of a company.
pub open spec fn company_entry(c: company::Model) -> Seq<char> {
    pad_right(c.ats@, 11) + " "@ + pad_right(c.slug@, 22) + " "@ + c.name@ + review_mark(c) + "\n"@
        + tags_line(c)
}

/// The entries of the list, one after the other.
pub open spec fn company_entries(rows: Seq<company::Model>) -> Seq<char>
    decreases rows.len(),
{
    if rows.len() == 0 {
        Seq::empty()
    } else {
        company_entries(rows.drop_last()) + company_entry(rows.last())
    }
}

/// The company list.
pub open spec fn company_list(rows: Seq<company::Model>, needs_review: bool) -> Seq<char> {
    if rows.len() == 0 {
        if needs_review {
            "No companies need review.\n"@
        } else {
            "No companies.\n"@
        }
    } else {
        company_entries(rows) + ("\n"@ + decimal(rows.len()) + " compan"@ + company_ending(
            rows.len(),
        ) + ".\n"@)
    }
}

/// Append what the list says of a company.
fn append_entry(out: &mut String, c: &company::Model)
    ensures
        final(out)@ == old(out)@ + company_entry(*c),
{
    let mut s = padded_right(c.ats.as_str(), 11);
    s.append(" ");
    s.append(padded_right(c.slug.as_str(), 22).as_str());
    s.append(" ");
    s.append(c.name.as_str());
    let ghost named = s@;
    if c.needs_review == 1 {
        s.append(" [needs-review]");
    }
    assert(s@ =~= named + review_mark(*c));
    s.append("\n");
    let ghost lined = s@;
    match &c.tags {
        Some(t) => if !t.as_str().is_empty() {
            s.append("            tags: ");
            s.append(t.as_str());
            s.append("\n");
        },
        None => {},
    }
    assert(s@ =~= lined + tags_line(*c));
    out.append(s.as_str());
}

/// Show companies.
pub fn list_report(rows: &Vec<company::Model>, needs_review: bool) -> (r: String)
    ensures
        r@ == company_list(rows@, needs_review),
{
    if rows.len() == 0 {
        return if needs_review {
            "No companies need review.\n".to_owned()
        } else {
            "No companies.\n".to_owned()
        };
    }
    let mut out = String::new();
    let mut i: usize = 0;
    assert(out@ =~= company_entries(rows@.take(0)));
    while i < rows.len()
        invariant
            i <= rows.len(),
            out@ == company_entries(rows@.take(i as int)),
        decreases rows.len() - i,
    {
        append_entry(&mut out, &rows[i]);
        assert(rows@.take(i + 1).drop_last() =~= rows@.take(i as int));
        assert(rows@.take(i + 1).last() == rows@[i as int]);
        i += 1;
    }
    assert(rows@.take(rows.len() as int) =~= rows@);
    let ghost entries = out@;
    out.append("\n");
    out.append(usize_text(rows.len()).as_str());
    out.append(" compan");
    out.append(ending(rows.len()));
    out.append(".\n");
    assert(out@ =~= entries + ("\n"@ + decimal(rows@.len()) + " compan"@ + company_ending(
        rows@.len(),
    ) + ".\n"@));
    out
}

} // verus!
