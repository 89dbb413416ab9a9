//! `digest`: where it goes and how it is rendered.

use vstd::prelude::*;

use crate::cli::DigestFormat;
use crate::report::{digest_text, render, Format, PostingRow};
use crate::text::number::{decimal, usize_text};

verus! {

/// The renderer's format for one that was asked for.
pub open spec fn format_of(f: DigestFormat) -> Format {
    match f {
        DigestFormat::Term => Format::Term,
        DigestFormat::Md => Format::Md,
    }
}

/// The digest as it is written to a file, which is always markdown, or printed in
/// the format that was asked for. Links are clickable only on a real terminal, so
/// that the escape sequences never leak into pipes or redirects.
pub fn digest(rows: &[PostingRow], format: DigestFormat, to_file: bool, is_terminal: bool) -> (r:
    String)
    ensures
        r@ == if to_file {
            digest_text(rows@, Format::Md, false)
        } else {
            digest_text(rows@, format_of(format), is_terminal)
        },
{
    if to_file {
        render(rows, Format::Md, false)
    } else {
        let f = match format {
            DigestFormat::Term => Format::Term,
            DigestFormat::Md => Format::Md,
        };
        render(rows, f, is_terminal)
    }
}

/// What is said after the digest was written to a file.
pub fn written_line(postings: usize, path: &str) -> (r: String)
    ensures
        r@ == "Wrote "@ + decimal(postings as nat) + " posting(s) to "@ + path@ + "."@,
{
    let mut s = "Wrote ".to_owned();
    s.append(usize_text(postings).as_str());
    s.append(" posting(s) to ");
    s.append(path);
    s.append(".");
    s
}

} // verus!
