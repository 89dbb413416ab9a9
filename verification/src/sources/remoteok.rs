//! RemoteOK, an aggregator. The first entry of its list is a legal notice, which
//! has no id. Every posting is remote.

use vstd::prelude::*;

use crate::sources::{
    first_of, first_text, or_empty, text_or_empty, text_unless_empty, title_with, titled,
    unless_empty, Listing, RawFields, RawPosting,
};
use crate::text::opt_text;

verus! {

/// An entry of the list.
#[derive(Debug, Clone)]
pub struct RokEntry {
    pub id: Option<String>,
    pub company: Option<String>,
    pub position: Option<String>,
    pub location: Option<String>,
    pub description: Option<String>,
    pub apply_url: Option<String>,
    pub url: Option<String>,
}

impl Listing for RokEntry {
    open spec fn shown(&self) -> Option<RawFields> {
        match (opt_text(self.id), opt_text(self.position)) {
            (Some(id), Some(position)) => Some(
                RawFields {
                    external_id: id,
                    title: titled(opt_text(self.company), position),
                    location: unless_empty(opt_text(self.location)),
                    description: or_empty(opt_text(self.description)),
                    apply_url: first_of(opt_text(self.apply_url), opt_text(self.url)),
                    remote: Some("remote"@),
                },
            ),
            _ => None,
        }
    }

    fn posting(&self) -> (r: Option<RawPosting>)
        ensures
            r is Some <==> self.id is Some && self.position is Some,
            r matches Some(p) ==> Some(p.external_id@) == opt_text(self.id),
            r matches Some(p) ==> (self.company matches Some(c) ==> (c@.len() > 0 ==> p.title@ == c@
                + " — "@ + opt_text(self.position)->Some_0)),
            r matches Some(p) ==> ((self.company matches Some(c) ==> c@.len() == 0) ==> p.title@
                == opt_text(self.position)->Some_0),
            r matches Some(p) ==> (self.location matches Some(l) ==> (l@.len() > 0 ==> opt_text(
                p.location,
            ) == Some(l@))),
            r matches Some(p) ==> ((self.location matches Some(l) ==> l@.len() == 0) ==> p.location
                is None),
            r matches Some(p) ==> (self.description matches Some(d) ==> p.description@ == d@),
            r matches Some(p) ==> (self.description is None ==> p.description@.len() == 0),
            r matches Some(p) ==> (self.apply_url matches Some(u) ==> p.apply_url@ == u@),
            r matches Some(p) ==> (self.apply_url is None ==> (self.url matches Some(u)
                ==> p.apply_url@ == u@)),
            r matches Some(p) ==> (self.apply_url is None && self.url is None ==> p.apply_url@.len()
                == 0),
            r matches Some(p) ==> opt_text(p.remote) == Some("remote"@),
    {
        match (&self.id, &self.position) {
            (Some(id), Some(position)) => Some(
                RawPosting {
                    external_id: id.clone(),
                    title: title_with(&self.company, position.as_str()),
                    location: text_unless_empty(&self.location),
                    description: text_or_empty(&self.description),
                    apply_url: first_text(&self.apply_url, &self.url),
                    remote: Some("remote".to_owned()),
                },
            ),
            _ => None,
        }
    }
}

} // verus!
