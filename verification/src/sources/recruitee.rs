//! Recruitee.

use vstd::prelude::*;

use crate::sources::{
    first_of, first_text, or_empty, text_or_empty, Listing, RawFields, RawPosting,
};
use crate::text::number::{decimal_int, i64_text};
use crate::text::{copy_opt, opt_text};

verus! {

/// An offer on a Recruitee board. The marks may be absent.
#[derive(Debug, Clone)]
pub struct RcOffer {
    pub id: i64,
    pub title: String,
    pub location: Option<String>,
    pub remote: Option<bool>,
    pub hybrid: Option<bool>,
    pub description: Option<String>,
    pub careers_apply_url: Option<String>,
    pub careers_url: Option<String>,
}

/// The remote flag of an offer's marks.
pub open spec fn recruitee_remote(remote: Option<bool>, hybrid: Option<bool>) -> Option<Seq<char>> {
    if remote == Some(true) {
        Some("remote"@)
    } else if hybrid == Some(true) {
        Some("hybrid"@)
    } else {
        None
    }
}

impl Listing for RcOffer {
    open spec fn shown(&self) -> Option<RawFields> {
        Some(
            RawFields {
                external_id: decimal_int(self.id as int),
                title: self.title@,
                location: opt_text(self.location),
                description: or_empty(opt_text(self.description)),
                apply_url: first_of(opt_text(self.careers_apply_url), opt_text(self.careers_url)),
                remote: recruitee_remote(self.remote, self.hybrid),
            },
        )
    }

    fn posting(&self) -> (r: Option<RawPosting>)
        ensures
            r is Some,
            r matches Some(p) ==> p.external_id@ == decimal_int(self.id as int),
            r matches Some(p) ==> p.title@ == self.title@,
            r matches Some(p) ==> p.location == self.location,
            r matches Some(p) ==> (self.description matches Some(d) ==> p.description@ == d@),
            r matches Some(p) ==> (self.description is None ==> p.description@.len() == 0),
            r matches Some(p) ==> (self.careers_apply_url matches Some(u) ==> p.apply_url@ == u@),
            r matches Some(p) ==> (self.careers_apply_url is None ==> (self.careers_url matches Some(
                u,
            ) ==> p.apply_url@ == u@)),
            r matches Some(p) ==> (self.careers_apply_url is None && self.careers_url is None
                ==> p.apply_url@.len() == 0),
            r matches Some(p) ==> (self.remote == Some(true) ==> opt_text(p.remote) == Some(
                "remote"@,
            )),
            r matches Some(p) ==> (self.remote != Some(true) && self.hybrid == Some(true)
                ==> opt_text(p.remote) == Some("hybrid"@)),
            r matches Some(p) ==> (self.remote != Some(true) && self.hybrid != Some(true)
                ==> p.remote is None),
    {
        let remote = match (self.remote, self.hybrid) {
            (Some(true), _) => Some("remote".to_owned()),
            (_, Some(true)) => Some("hybrid".to_owned()),
            (_, _) => None,
        };
        Some(
            RawPosting {
                external_id: i64_text(self.id),
                title: self.title.clone(),
                location: copy_opt(&self.location),
                description: text_or_empty(&self.description),
                apply_url: first_text(&self.careers_apply_url, &self.careers_url),
                remote,
            },
        )
    }
}

} // verus!
