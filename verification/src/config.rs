//! The code-side pre-filter of the profile.

use vstd::prelude::*;

use crate::text::texts;

verus! {

/// Code-side pre-filter tuning. A posting whose title matches any `reject_titles`
/// term is dropped before it is ever scored, unless its description mentions one
/// of `keep_keywords`, which rescues it. Both lists are matched regardless of case
/// on word boundaries. This is a cheap cost-saver; the scoring comes after it.
#[derive(Debug, Clone)]
pub struct Prefilter {
    pub reject_titles: Vec<String>,
    pub keep_keywords: Vec<String>,
}

impl Default for Prefilter {
    /// Without a `[prefilter]` section only titles that are unambiguously of
    /// another discipline are rejected, with no rescue keyword. Filtering by
    /// seniority is opt-in, since a senior candidate would want those roles.
    fn default() -> (r: Self)
        ensures
            texts(r.reject_titles@) == seq!["Recruiter"@, "Sales"@, "Marketing"@],
            r.keep_keywords@.len() == 0,
    {
        let mut reject_titles: Vec<String> = Vec::new();
        reject_titles.push("Recruiter".to_owned());
        reject_titles.push("Sales".to_owned());
        reject_titles.push("Marketing".to_owned());
        assert(texts(reject_titles@) =~= seq!["Recruiter"@, "Sales"@, "Marketing"@]);
        Prefilter { reject_titles, keep_keywords: Vec::new() }
    }
}

/// The pre-filter of a profile: its `[prefilter]` section, or the default when the
/// section is absent. An explicit but empty section disables pre-filtering.
pub fn prefilter_or_default(section: Option<Prefilter>) -> (r: Prefilter)
    ensures
        section matches Some(p) ==> r == p,
        section is None ==> texts(r.reject_titles@) == seq!["Recruiter"@, "Sales"@, "Marketing"@]
            && r.keep_keywords@.len() == 0,
{
    match section {
        Some(p) => p,
        None => Prefilter::default(),
    }
}

} // verus!
