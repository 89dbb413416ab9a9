//! Remotive, an aggregator. Every posting is remote.

use vstd::prelude::*;

use crate::sources::{
    or_empty, text_or_empty, text_unless_empty, title_with, titled, unless_empty, Listing,
    RawFields, RawPosting,
};
use crate::text::number::{decimal_int, i64_text};
use crate::text::opt_text;

verus! {

/// A job of the list.
#[derive(Debug, Clone)]
pub struct RmvJob {
    pub id: i64,
    pub title: String,
    pub company_name: Option<String>,
    pub candidate_required_location: Option<String>,
    pub description: Option<String>,
    pub url: Option<String>,
}

impl Listing for RmvJob {
    open spec fn shown(&self) -> Option<RawFields> {
        Some(
            RawFields {
                external_id: decimal_int(self.id as int),
                title: titled(opt_text(self.company_name), self.title@),
                location: unless_empty(opt_text(self.candidate_required_location)),
                description: or_empty(opt_text(self.description)),
                apply_url: or_empty(opt_text(self.url)),
                remote: Some("remote"@),
            },
        )
    }

    fn posting(&self) -> (r: Option<RawPosting>)
        ensures
            r is Some,
            r matches Some(p) ==> p.external_id@ == decimal_int(self.id as int),
            r matches Some(p) ==> (self.company_name matches Some(c) ==> (c@.len() > 0 ==> p.title@
                == c@ + " — "@ + self.title@)),
            r matches Some(p) ==> ((self.company_name matches Some(c) ==> c@.len() == 0)
                ==> p.title@ == self.title@),
            r matches Some(p) ==> (self.candidate_required_location matches Some(l) ==> (l@.len()
                > 0 ==> opt_text(p.location) == Some(l@))),
            r matches Some(p) ==> ((self.candidate_required_location matches Some(l) ==> l@.len()
                == 0) ==> p.location is None),
            r matches Some(p) ==> (self.description matches Some(d) ==> p.description@ == d@),
            r matches Some(p) ==> (self.description is None ==> p.description@.len() == 0),
            r matches Some(p) ==> (self.url matches Some(u) ==> p.apply_url@ == u@),
            r matches Some(p) ==> (self.url is None ==> p.apply_url@.len() == 0),
            r matches Some(p) ==> opt_text(p.remote) == Some("remote"@),
    {
        Some(
            RawPosting {
                external_id: i64_text(self.id),
                title: title_with(&self.company_name, self.title.as_str()),
                location: text_unless_empty(&self.candidate_required_location),
                description: text_or_empty(&self.description),
                apply_url: text_or_empty(&self.url),
                remote: Some("remote".to_owned()),
            },
        )
    }
}

} // verus!
