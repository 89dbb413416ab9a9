//! Greenhouse. The content of a job is HTML with its markup escaped once more, so
//! the character references are decoded here.

use vstd::prelude::*;

use crate::html::{decode_entities, decoded, html_decoded};
use crate::sources::{Listing, RawFields, RawPosting};
use crate::text::number::{decimal_int, i64_text};
use crate::text::{copy_opt, opt_text};

verus! {

/// A job on a Greenhouse board.
#[derive(Debug, Clone)]
pub struct GhJob {
    pub id: i64,
    pub title: String,
    pub absolute_url: String,
    /// the name of the location, where there is one
    pub location: Option<String>,
    pub content: Option<String>,
}

/// The description that a content holds.
pub open spec fn gh_description(content: Option<Seq<char>>) -> Seq<char> {
    match content {
        Some(c) => decoded(c),
        None => Seq::empty(),
    }
}

impl Listing for GhJob {
    open spec fn shown(&self) -> Option<RawFields> {
        Some(
            RawFields {
                external_id: decimal_int(self.id as int),
                title: self.title@,
                location: opt_text(self.location),
                description: gh_description(opt_text(self.content)),
                apply_url: self.absolute_url@,
                remote: None,
            },
        )
    }

    fn posting(&self) -> (r: Option<RawPosting>)
        ensures
            r is Some,
            r matches Some(p) ==> p.external_id@ == decimal_int(self.id as int),
            r matches Some(p) ==> p.title@ == self.title@,
            r matches Some(p) ==> p.location == self.location,
            r matches Some(p) ==> (self.content matches Some(c) ==> (!c@.contains('&')
                ==> p.description@ == c@)),
            r matches Some(p) ==> (self.content matches Some(c) ==> (c@.contains('&')
                ==> p.description@ == html_decoded(c@))),
            r matches Some(p) ==> (self.content is None ==> p.description@.len() == 0),
            r matches Some(p) ==> p.apply_url@ == self.absolute_url@,
            r matches Some(p) ==> p.remote is None,
    {
        let description = match &self.content {
            Some(c) => decode_entities(c.as_str()),
            None => String::new(),
        };
        Some(
            RawPosting {
                external_id: i64_text(self.id),
                title: self.title.clone(),
                location: copy_opt(&self.location),
                description,
                apply_url: self.absolute_url.clone(),
                remote: None,
            },
        )
    }
}

} // verus!
