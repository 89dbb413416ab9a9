//! Output without hyperlinks holds no escape sequence of its own.

use vstd::prelude::*;

use crate::report::{
    badge_of, digest_text, head_line, link_line, md_entries, md_entry, name_of, place_of,
    reason_line, summary_of, term_entries, term_entry, Format, PostingRow, RULE,
};
use crate::text::number::{decimal, decimal_int, digit, pad_left, spaces};
use crate::text::opt_text;

verus! {

/// Whether a text holds no escape character.
pub open spec fn is_plain(s: Seq<char>) -> bool {
    !s.contains('\x1b')
}

/// Whether a text, if there is one, holds no escape character.
pub open spec fn is_plain_opt(o: Option<String>) -> bool {
    opt_text(o) matches Some(s) ==> is_plain(s)
}

/// Whether what a row shows holds no escape character.
pub open spec fn is_plain_row(row: PostingRow) -> bool {
    &&& is_plain(row.0.title@)
    &&& is_plain(row.0.apply_url@)
    &&& is_plain_opt(row.0.location)
    &&& is_plain_opt(row.0.remote)
    &&& is_plain_opt(row.0.score_reason)
    &&& row.1 matches Some(c) ==> is_plain(c.name@)
}

/// A text put together from plain texts is plain.
proof fn lemma_plain_concat(a: Seq<char>, b: Seq<char>)
    requires
        is_plain(a),
        is_plain(b),
    ensures
        is_plain(a + b),
{
    let s = a + b;
    if s.contains('\x1b') {
        let i = choose|i: int| 0 <= i < s.len() && s[i] == '\x1b';
        if i < a.len() {
            assert(a[i] == '\x1b');
        } else {
            assert(b[i - a.len()] == '\x1b');
        }
    }
}

/// Numbers are plain.
proof fn lemma_plain_decimal(n: nat)
    ensures
        is_plain(decimal(n)),
    decreases n,
{
    if n < 10 {
        assert(decimal(n) =~= seq![digit(n)]);
    } else {
        lemma_plain_decimal(n / 10);
        let s = decimal(n);
        let t = decimal(n / 10);
        if s.contains('\x1b') {
            let i = choose|i: int| 0 <= i < s.len() && s[i] == '\x1b';
            if i < t.len() {
                assert(t[i] == '\x1b');
            }
        }
    }
}

/// Integers are plain, and padding them keeps them so.
proof fn lemma_plain_int(i: int, width: nat)
    ensures
        is_plain(decimal_int(i)),
        is_plain(pad_left(decimal_int(i), width)),
{
    if i < 0 {
        lemma_plain_decimal((-i) as nat);
        lemma_plain_concat(seq!['-'], decimal((-i) as nat));
    } else {
        lemma_plain_decimal(i as nat);
    }
    let s = decimal_int(i);
    if s.len() < width {
        lemma_plain_concat(spaces((width - s.len()) as nat), s);
    }
}

/// The fixed texts of an entry are plain.
proof fn lemma_plain_literals()
    ensures
        is_plain("["@),
        is_plain("]"@),
        is_plain("[ –]"@),
        is_plain(" #"@),
        is_plain("  "@),
        is_plain("  —  "@),
        is_plain("\n"@),
        is_plain(" · "@),
        is_plain("(unknown)"@),
        is_plain("location unknown"@),
        is_plain("  → jobpipe apply "@),
        is_plain("- **"@),
        is_plain(" ["@),
        is_plain("]("@),
        is_plain(")** — "@),
        is_plain("  - "@),
        is_plain("  - `jobpipe apply "@),
        is_plain("`\n"@),
{
    reveal_strlit("[");
    reveal_strlit("]");
    reveal_strlit("[ –]");
    reveal_strlit(" #");
    reveal_strlit("  ");
    reveal_strlit("  —  ");
    reveal_strlit("\n");
    reveal_strlit(" · ");
    reveal_strlit("(unknown)");
    reveal_strlit("location unknown");
    reveal_strlit("  → jobpipe apply ");
    reveal_strlit("- **");
    reveal_strlit(" [");
    reveal_strlit("](");
    reveal_strlit(")** — ");
    reveal_strlit("  - ");
    reveal_strlit("  - `jobpipe apply ");
    reveal_strlit("`\n");
}

/// The fixed texts around the entries are plain.
proof fn lemma_plain_frame()
    ensures
        is_plain("No open postings.\n"@),
        is_plain("jobpipe digest — "@),
        is_plain(" open posting(s)\n"@),
        is_plain(RULE@),
        is_plain("# jobpipe digest\n\n_No open postings._\n"@),
        is_plain("# jobpipe digest\n\n"@),
        is_plain(" open posting(s).\n\n"@),
{
    reveal_strlit("No open postings.\n");
    reveal_strlit("jobpipe digest — ");
    reveal_strlit(" open posting(s)\n");
    reveal_strlit("================================================");
    reveal_strlit("# jobpipe digest\n\n_No open postings._\n");
    reveal_strlit("# jobpipe digest\n\n");
    reveal_strlit(" open posting(s).\n\n");
}

/// The parts of a plain row are plain.
proof fn lemma_plain_parts(row: PostingRow)
    requires
        is_plain_row(row),
    ensures
        is_plain(summary_of(row)),
        is_plain(link_line(row.0.apply_url@, false)),
        is_plain(name_of(row.1)),
        is_plain(place_of(row.0)),
        is_plain(badge_of(row.0.score)),
        is_plain(reason_line(row.0, "  "@)),
        is_plain(reason_line(row.0, "  - "@)),
{
    lemma_plain_literals();
    assert forall|a: Seq<char>, b: Seq<char>|
        is_plain(a) && is_plain(b) implies #[trigger] is_plain(a + b) by {
        lemma_plain_concat(a, b);
    }
    assert(is_plain(Seq::<char>::empty()));
    match row.0.score {
        Some(s) => lemma_plain_int(s as int, 2),
        None => {},
    }
    lemma_plain_int(row.0.id as int, 0);
    assert(is_plain(badge_of(row.0.score)));
    assert(is_plain(place_of(row.0)));
    assert(is_plain(head_line(row)));
}

/// The entries of plain rows are plain.
proof fn lemma_plain_entry(row: PostingRow)
    requires
        is_plain_row(row),
    ensures
        is_plain(term_entry(row, false)),
        is_plain(md_entry(row)),
{
    lemma_plain_literals();
    lemma_plain_parts(row);
    lemma_plain_int(row.0.id as int, 0);
    assert forall|a: Seq<char>, b: Seq<char>|
        is_plain(a) && is_plain(b) implies #[trigger] is_plain(a + b) by {
        lemma_plain_concat(a, b);
    }
}

/// The entries of plain rows, one after the other, are plain.
proof fn lemma_plain_entries(rows: Seq<PostingRow>)
    requires
        forall|i: int| 0 <= i < rows.len() ==> is_plain_row(#[trigger] rows[i]),
    ensures
        is_plain(term_entries(rows, false)),
        is_plain(md_entries(rows)),
    decreases rows.len(),
{
    if rows.len() > 0 {
        let d = rows.drop_last();
        assert forall|i: int| 0 <= i < d.len() implies is_plain_row(#[trigger] d[i]) by {
            assert(d[i] == rows[i]);
        }
        lemma_plain_entries(d);
        let row = rows[rows.len() - 1];
        lemma_plain_entry(row);
        lemma_plain_concat(term_entries(d, false), term_entry(row, false));
        lemma_plain_concat(md_entries(d), md_entry(row));
    }
}

/// Unless a terminal digest with hyperlinks is asked for, the digest of rows
/// without escape characters holds none, so that none leaks into pipes and files.
pub proof fn digest_leaks_no_escapes(rows: Seq<PostingRow>, format: Format, hyperlinks: bool)
    requires
        format is Md || !hyperlinks,
        forall|i: int| 0 <= i < rows.len() ==> is_plain_row(#[trigger] rows[i]),
    ensures
        is_plain(digest_text(rows, format, hyperlinks)),
{
    lemma_plain_frame();
    lemma_plain_literals();
    lemma_plain_entries(rows);
    lemma_plain_decimal(rows.len());
    assert forall|a: Seq<char>, b: Seq<char>|
        is_plain(a) && is_plain(b) implies #[trigger] is_plain(a + b) by {
        lemma_plain_concat(a, b);
    }
}

} // verus!
