//! Ashby. A job's secondary locations often hold the remote ones, so they are
//! merged with the primary location.

use vstd::prelude::*;

use crate::sources::{first_of, first_text, or_empty, text_or_empty, Listing, RawFields, RawPosting};
use crate::text::search::{contains_text, has};
use crate::text::words::{join, join_texts};
use crate::text::{opt_str, opt_text, texts};
use crate::unicode::lower_of;

verus! {

/// A job on an Ashby board.
#[derive(Debug, Clone)]
pub struct AshbyJob {
    pub id: String,
    pub title: String,
    pub location: Option<String>,
    pub secondary_locations: Vec<Option<String>>,
    pub is_remote: Option<bool>,
    pub workplace_type: Option<String>,
    pub description_html: Option<String>,
    pub apply_url: Option<String>,
    pub job_url: Option<String>,
}

/// The texts that are there, in order.
pub open spec fn present(v: Seq<Option<String>>) -> Seq<Seq<char>>
    decreases v.len(),
{
    if v.len() == 0 {
        Seq::empty()
    } else {
        match v.last() {
            Some(s) => present(v.drop_last()).push(s@),
            None => present(v.drop_last()),
        }
    }
}

/// The locations, one after the other, if there is one.
pub open spec fn merged(locations: Seq<Seq<char>>) -> Option<Seq<char>> {
    if locations.len() == 0 {
        None
    } else {
        Some(join(locations, " | "@))
    }
}

/// The remote flag of a workplace type in lower case; failing that, of the remote
/// mark.
pub open spec fn ashby_remote(workplace: Option<Seq<char>>, is_remote: bool) -> Option<Seq<char>> {
    match workplace {
        Some(w) => if has(w, "hybrid"@) {
            Some("hybrid"@)
        } else if has(w, "remote"@) {
            Some("remote"@)
        } else if has(w, "site"@) {
            Some("onsite"@)
        } else {
            marked_remote(is_remote)
        },
        None => marked_remote(is_remote),
    }
}

/// The remote flag of a mark.
pub open spec fn marked_remote(is_remote: bool) -> Option<Seq<char>> {
    if is_remote {
        Some("remote"@)
    } else {
        None
    }
}

/// A text in lower case, if there is one.
pub open spec fn opt_lower(o: Option<Seq<char>>) -> Option<Seq<char>> {
    match o {
        Some(s) => Some(lower_of(s)),
        None => None,
    }
}

/// A text in lower case, if there is one.
pub(crate) fn lower_opt(o: &Option<String>) -> (r: Option<String>)
    ensures
        opt_text(r) == opt_lower(opt_text(*o)),
{
    match o {
        Some(s) => Some(s.as_str().to_lowercase()),
        None => None,
    }
}

/// The remote flag of a workplace type in lower case; failing that, of the remote
/// mark.
pub fn remote_flag(workplace: Option<&str>, is_remote: bool) -> (r: Option<String>)
    ensures
        opt_text(r) == ashby_remote(opt_str(workplace), is_remote),
{
    match workplace {
        Some(w) => if contains_text(w, "hybrid") {
            return Some("hybrid".to_owned());
        } else if contains_text(w, "remote") {
            return Some("remote".to_owned());
        } else if contains_text(w, "site") {
            return Some("onsite".to_owned());
        },
        None => {},
    }
    if is_remote {
        Some("remote".to_owned())
    } else {
        None
    }
}

/// The locations of a job, the primary one first.
fn locations(j: &AshbyJob) -> (r: Vec<String>)
    ensures
        texts(r@) == present(seq![j.location] + j.secondary_locations@),
{
    let mut out: Vec<String> = Vec::new();
    let ghost all = seq![j.location] + j.secondary_locations@;
    assert(all.take(0) =~= Seq::empty());
    assert(all.take(1).drop_last() =~= all.take(0));
    assert(texts(out@) =~= present(all.take(0)));
    match &j.location {
        Some(s) => {
            out.push(s.clone());
            assert(texts(out@) =~= seq![s@]);
        },
        None => {},
    }
    assert(texts(out@) =~= present(all.take(1)));
    let mut i: usize = 0;
    while i < j.secondary_locations.len()
        invariant
            i <= j.secondary_locations.len(),
            all == seq![j.location] + j.secondary_locations@,
            texts(out@) == present(all.take(i + 1)),
        decreases j.secondary_locations.len() - i,
    {
        assert(all.take(i + 2).drop_last() =~= all.take(i + 1));
        assert(all.take(i + 2).last() == j.secondary_locations@[i as int]);
        let ghost before = out@;
        match &j.secondary_locations[i] {
            Some(s) => {
                out.push(s.clone());
                assert(texts(out@) =~= texts(before).push(s@));
            },
            None => {},
        }
        i += 1;
    }
    assert(all.take(all.len() as int) =~= all);
    out
}

/// The texts that are there are those of the given ones.
proof fn lemma_present(v: Seq<Option<String>>)
    ensures
        present(v) == v.filter(|o: Option<String>| o is Some).map_values(
            |o: Option<String>| o->Some_0@,
        ),
    decreases v.len(),
{
    let keep = |o: Option<String>| o is Some;
    let f = |o: Option<String>| o->Some_0@;
    reveal(Seq::filter);
    if v.len() == 0 {
        assert(v.filter(keep).map_values(f) =~= present(v));
    } else {
        lemma_present(v.drop_last());
        let front = v.drop_last().filter(keep);
        if v.last() is Some {
            assert(front.push(v.last()).map_values(f) =~= front.map_values(f).push(f(v.last())));
        }
    }
}

impl Listing for AshbyJob {
    open spec fn shown(&self) -> Option<RawFields> {
        Some(
            RawFields {
                external_id: self.id@,
                title: self.title@,
                location: merged(present(seq![self.location] + self.secondary_locations@)),
                description: or_empty(opt_text(self.description_html)),
                apply_url: first_of(opt_text(self.apply_url), opt_text(self.job_url)),
                remote: ashby_remote(
                    opt_lower(opt_text(self.workplace_type)),
                    self.is_remote == Some(true),
                ),
            },
        )
    }

    fn posting(&self) -> (r: Option<RawPosting>)
        ensures
            r is Some,
            r matches Some(p) ==> p.external_id@ == self.id@,
            r matches Some(p) ==> p.title@ == self.title@,
            r matches Some(p) ==> ({
                let given = (seq![self.location] + self.secondary_locations@).filter(
                    |o: Option<String>| o is Some,
                ).map_values(|o: Option<String>| o->Some_0@);
                opt_text(p.location) == if given.len() == 0 {
                    None
                } else {
                    Some(join(given, " | "@))
                }
            }),
            r matches Some(p) ==> (self.description_html matches Some(d) ==> p.description@ == d@),
            r matches Some(p) ==> (self.description_html is None ==> p.description@.len() == 0),
            r matches Some(p) ==> (self.apply_url matches Some(u) ==> p.apply_url@ == u@),
            r matches Some(p) ==> (self.apply_url is None ==> (self.job_url matches Some(u)
                ==> p.apply_url@ == u@)),
            r matches Some(p) ==> (self.apply_url is None && self.job_url is None
                ==> p.apply_url@.len() == 0),
            r matches Some(p) ==> (self.workplace_type matches Some(w) ==> (has(
                lower_of(w@),
                "hybrid"@,
            ) ==> opt_text(p.remote) == Some("hybrid"@))),
            r matches Some(p) ==> (self.workplace_type matches Some(w) ==> (!(has(
                lower_of(w@),
                "hybrid"@,
            )) && has(lower_of(w@), "remote"@) ==> opt_text(p.remote) == Some("remote"@))),
            r matches Some(p) ==> (self.workplace_type matches Some(w) ==> (!(has(
                lower_of(w@),
                "hybrid"@,
            )) && !(has(lower_of(w@), "remote"@)) && has(lower_of(w@), "site"@) ==> opt_text(
                p.remote,
            ) == Some("onsite"@))),
            r matches Some(p) ==> ((self.workplace_type matches Some(w) ==> !(has(
                lower_of(w@),
                "hybrid"@,
            )) && !(has(lower_of(w@), "remote"@)) && !(has(lower_of(w@), "site"@))) ==> opt_text(
                p.remote,
            ) == if self.is_remote == Some(true) {
                Some("remote"@)
            } else {
                None
            }),
    {
        proof {
            lemma_present(seq![self.location] + self.secondary_locations@);
        }
        let locs = locations(self);
        assert(texts(locs@).len() == locs@.len());
        let location = if locs.len() == 0 {
            None
        } else {
            Some(join_texts(&locs, " | "))
        };
        let lower = lower_opt(&self.workplace_type);
        let marked = match self.is_remote {
            Some(b) => b,
            None => false,
        };
        let remote = remote_flag(crate::text::as_opt_str(&lower), marked);
        Some(
            RawPosting {
                external_id: self.id.clone(),
                title: self.title.clone(),
                location,
                description: text_or_empty(&self.description_html),
                apply_url: first_text(&self.apply_url, &self.job_url),
                remote,
            },
        )
    }
}

} // verus!
