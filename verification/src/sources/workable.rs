//! Workable.

use vstd::prelude::*;

use crate::sources::{
    first_of, first_text, or_empty, text_or_empty, unless_empty, Listing, RawFields, RawPosting,
};
use crate::text::words::{join, join_texts};
use crate::text::{opt_text, texts};

verus! {

/// A job on a Workable board.
#[derive(Debug, Clone)]
pub struct WkJob {
    pub shortcode: String,
    pub title: String,
    pub city: Option<String>,
    pub state: Option<String>,
    pub country: Option<String>,
    pub telecommuting: Option<bool>,
    pub description: Option<String>,
    pub application_url: Option<String>,
    pub url: Option<String>,
}

/// A text as a list of one, or an empty list if there is none or it is empty.
pub open spec fn as_part(o: Option<Seq<char>>) -> Seq<Seq<char>> {
    match unless_empty(o) {
        Some(s) => seq![s],
        None => Seq::empty(),
    }
}

/// The city, the state and the country, as far as they are given.
pub open spec fn place_parts(j: WkJob) -> Seq<Seq<char>> {
    as_part(opt_text(j.city)) + as_part(opt_text(j.state)) + as_part(opt_text(j.country))
}

/// The parts with commas between them, if there is one.
pub open spec fn workable_location(j: WkJob) -> Option<Seq<char>> {
    if place_parts(j).len() == 0 {
        None
    } else {
        Some(join(place_parts(j), ", "@))
    }
}

/// Add a part if there is one that is not empty.
fn push_part(parts: &mut Vec<String>, o: &Option<String>)
    ensures
        texts(final(parts)@) == texts(old(parts)@) + as_part(opt_text(*o)),
{
    match o {
        Some(s) => if !s.as_str().is_empty() {
            parts.push(s.clone());
        },
        None => {},
    }
    assert(texts(parts@) =~= texts(old(parts)@) + as_part(opt_text(*o)));
}

/// The city, the state and the country, as far as they are given.
fn location(j: &WkJob) -> (r: Option<String>)
    ensures
        opt_text(r) == workable_location(*j),
{
    let mut parts: Vec<String> = Vec::new();
    push_part(&mut parts, &j.city);
    push_part(&mut parts, &j.state);
    push_part(&mut parts, &j.country);
    assert(texts(parts@) =~= place_parts(*j));
    assert(texts(parts@).len() == parts@.len());
    if parts.len() == 0 {
        None
    } else {
        Some(join_texts(&parts, ", "))
    }
}

/// The parts are the texts that are given and not empty.
proof fn lemma_given(j: WkJob)
    ensures
        place_parts(j) == seq![j.city, j.state, j.country].filter(
            |o: Option<String>| o is Some && o->Some_0@.len() > 0,
        ).map_values(|o: Option<String>| o->Some_0@),
{
    let keep = |o: Option<String>| o is Some && o->Some_0@.len() > 0;
    let f = |o: Option<String>| o->Some_0@;
    let none = Seq::<Option<String>>::empty();
    let a = seq![j.city];
    let b = seq![j.city, j.state];
    let c = seq![j.city, j.state, j.country];
    reveal(Seq::filter);
    assert(a.drop_last() =~= none);
    assert(b.drop_last() =~= a);
    assert(c.drop_last() =~= b);
    assert(none.filter(keep) =~= none);
    assert(a.filter(keep).map_values(f) =~= as_part(opt_text(j.city)));
    assert(b.filter(keep).map_values(f) =~= as_part(opt_text(j.city)) + as_part(
        opt_text(j.state),
    ));
    assert(c.filter(keep).map_values(f) =~= place_parts(j));
}

impl Listing for WkJob {
    open spec fn shown(&self) -> Option<RawFields> {
        Some(
            RawFields {
                external_id: self.shortcode@,
                title: self.title@,
                location: workable_location(*self),
                description: or_empty(opt_text(self.description)),
                apply_url: first_of(opt_text(self.application_url), opt_text(self.url)),
                remote: if self.telecommuting == Some(true) {
                    Some("remote"@)
                } else {
                    None
                },
            },
        )
    }

    fn posting(&self) -> (r: Option<RawPosting>)
        ensures
            r is Some,
            r matches Some(p) ==> p.external_id@ == self.shortcode@,
            r matches Some(p) ==> p.title@ == self.title@,
            r matches Some(p) ==> ({
                let given = seq![self.city, self.state, self.country].filter(
                    |o: Option<String>| o is Some && o->Some_0@.len() > 0,
                ).map_values(|o: Option<String>| o->Some_0@);
                opt_text(p.location) == if given.len() == 0 {
                    None
                } else {
                    Some(join(given, ", "@))
                }
            }),
            r matches Some(p) ==> (self.description matches Some(d) ==> p.description@ == d@),
            r matches Some(p) ==> (self.description is None ==> p.description@.len() == 0),
            r matches Some(p) ==> (self.application_url matches Some(u) ==> p.apply_url@ == u@),
            r matches Some(p) ==> (self.application_url is None ==> (self.url matches Some(u)
                ==> p.apply_url@ == u@)),
            r matches Some(p) ==> (self.application_url is None && self.url is None
                ==> p.apply_url@.len() == 0),
            r matches Some(p) ==> (self.telecommuting == Some(true) ==> opt_text(p.remote) == Some(
                "remote"@,
            )),
            r matches Some(p) ==> (self.telecommuting != Some(true) ==> p.remote is None),
    {
        proof {
            lemma_given(*self);
        }
        let remote = match self.telecommuting {
            Some(true) => Some("remote".to_owned()),
            _ => None,
        };
        Some(
            RawPosting {
                external_id: self.shortcode.clone(),
                title: self.title.clone(),
                location: location(self),
                description: text_or_empty(&self.description),
                apply_url: first_text(&self.application_url, &self.url),
                remote,
            },
        )
    }
}

} // verus!
