//! `init`: the database and its companies.

use vstd::prelude::*;

use crate::text::number::{decimal, u64_text, usize_text};

verus! {

/// The ending of "company" after a number.
pub open spec fn company_ending(n: nat) -> Seq<char> {
    if n == 1 {
        "y"@
    } else {
        "ies"@
    }
}

/// The ending of "company" after a number.
pub(crate) fn ending(n: usize) -> (r: &'static str)
    ensures
        r@ == company_ending(n as nat),
{
    if n == 1 {
        "y"
    } else {
        "ies"
    }
}

/// What is said after the companies were seeded.
pub fn init_line(db: &str, inserted: usize, total: u64) -> (r: String)
    ensures
        r@ == "Initialized "@ + db@ + ". Seeded "@ + decimal(inserted as nat) + " new compan"@
            + company_ending(inserted as nat) + " ("@ + decimal(total as nat) + " total)."@,
{
    let mut s = "Initialized ".to_owned();
    s.append(db);
    s.append(". Seeded ");
    s.append(usize_text(inserted).as_str());
    s.append(" new compan");
    s.append(ending(inserted));
    s.append(" (");
    s.append(u64_text(total).as_str());
    s.append(" total).");
    s
}

} // verus!
