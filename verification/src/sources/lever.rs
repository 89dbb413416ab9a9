//! Lever. The body of a posting is spread over several fields.

use vstd::prelude::*;

use crate::sources::ashby::{lower_opt, opt_lower};
use crate::sources::{
    first_of, first_text, or_empty, text_or_empty, Listing, RawFields, RawPosting,
};
use crate::text::search::{contains_text, has};
use crate::text::words::{join, join_texts};
use crate::text::{as_opt_str, blank, copy_opt, is_blank, opt_str, opt_text, texts};
use crate::unicode::lower_of;

verus! {

/// A posting on a Lever board.
#[derive(Debug, Clone)]
pub struct LvPosting {
    pub id: String,
    pub text: String,
    pub location: Option<String>,
    pub all_locations: Vec<String>,
    pub workplace_type: Option<String>,
    pub country: Option<String>,
    pub description: Option<String>,
    /// the contents of the sections
    pub lists: Vec<String>,
    pub additional: Option<String>,
    /// Some boards misplace the body here; used only as a fallback.
    pub salary_description: Option<String>,
    pub apply_url: Option<String>,
    pub hosted_url: Option<String>,
}

/// The remote flag of a workplace type in lower case.
pub open spec fn lever_remote(workplace: Option<Seq<char>>) -> Option<Seq<char>> {
    match workplace {
        Some(w) => if has(w, "remote"@) {
            Some("remote"@)
        } else if has(w, "hybrid"@) {
            Some("hybrid"@)
        } else if has(w, "site"@) || has(w, "office"@) {
            Some("onsite"@)
        } else {
            None
        },
        None => None,
    }
}

/// The remote flag of a workplace type in lower case.
pub fn remote_flag(workplace: Option<&str>) -> (r: Option<String>)
    ensures
        opt_text(r) == lever_remote(opt_str(workplace)),
{
    match workplace {
        Some(w) => if contains_text(w, "remote") {
            Some("remote".to_owned())
        } else if contains_text(w, "hybrid") {
            Some("hybrid".to_owned())
        } else if contains_text(w, "site") || contains_text(w, "office") {
            Some("onsite".to_owned())
        } else {
            None
        },
        None => None,
    }
}

/// The remote flag of a workplace type.
pub fn canon_remote(workplace_type: &Option<String>) -> (r: Option<String>)
    ensures
        opt_text(r) == lever_remote(opt_lower(opt_text(*workplace_type))),
{
    let lower = lower_opt(workplace_type);
    remote_flag(as_opt_str(&lower))
}

/// The texts, one after the other.
pub open spec fn concatenated(v: Seq<Seq<char>>) -> Seq<char>
    decreases v.len(),
{
    if v.len() == 0 {
        Seq::empty()
    } else {
        concatenated(v.drop_last()) + v.last()
    }
}

/// The intro, each section and the closing; if all of that is blank, the fallback.
pub open spec fn lever_body(j: LvPosting) -> Seq<char> {
    let body = or_empty(opt_text(j.description)) + concatenated(texts(j.lists@)) + or_empty(
        opt_text(j.additional),
    );
    if is_blank(body) {
        or_empty(opt_text(j.salary_description))
    } else {
        body
    }
}

/// The explicit list of locations, else the single one, else the country.
pub open spec fn lever_location(j: LvPosting) -> Option<Seq<char>> {
    if j.all_locations@.len() > 0 {
        Some(join(texts(j.all_locations@), " | "@))
    } else if j.location is Some {
        opt_text(j.location)
    } else {
        opt_text(j.country)
    }
}

/// The body of a posting.
fn body(j: &LvPosting) -> (r: String)
    ensures
        r@ == lever_body(*j),
{
    let mut out = text_or_empty(&j.description);
    let ghost intro = out@;
    let mut i: usize = 0;
    assert(texts(j.lists@.take(0)) =~= Seq::empty());
    assert(out@ =~= intro + concatenated(texts(j.lists@.take(0))));
    while i < j.lists.len()
        invariant
            i <= j.lists.len(),
            out@ == intro + concatenated(texts(j.lists@.take(i as int))),
        decreases j.lists.len() - i,
    {
        out.append(j.lists[i].as_str());
        proof {
            let all = texts(j.lists@.take(i + 1));
            assert(all.drop_last() =~= texts(j.lists@.take(i as int)));
            assert(all.last() == j.lists@[i as int]@);
            assert(out@ =~= intro + concatenated(all));
        }
        i += 1;
    }
    assert(j.lists@.take(j.lists.len() as int) =~= j.lists@);
    let ghost listed = out@;
    match &j.additional {
        Some(a) => {
            out.append(a.as_str());
        },
        None => {},
    }
    assert(out@ =~= listed + or_empty(opt_text(j.additional)));
    if blank(out.as_str()) {
        text_or_empty(&j.salary_description)
    } else {
        out
    }
}

/// The texts one after the other.
proof fn lemma_concatenated(v: Seq<Seq<char>>)
    ensures
        concatenated(v) == v.flatten(),
    decreases v.len(),
{
    v.lemma_flatten_and_flatten_alt_are_equivalent();
    if v.len() > 0 {
        let d = v.drop_last();
        lemma_concatenated(d);
        d.lemma_flatten_and_flatten_alt_are_equivalent();
    }
}

impl Listing for LvPosting {
    open spec fn shown(&self) -> Option<RawFields> {
        Some(
            RawFields {
                external_id: self.id@,
                title: self.text@,
                location: lever_location(*self),
                description: lever_body(*self),
                apply_url: first_of(opt_text(self.apply_url), opt_text(self.hosted_url)),
                remote: lever_remote(opt_lower(opt_text(self.workplace_type))),
            },
        )
    }

    fn posting(&self) -> (r: Option<RawPosting>)
        ensures
            r is Some,
            r matches Some(p) ==> p.external_id@ == self.id@,
            r matches Some(p) ==> p.title@ == self.text@,
            r matches Some(p) ==> (self.all_locations@.len() > 0 ==> opt_text(p.location) == Some(
                join(texts(self.all_locations@), " | "@),
            )),
            r matches Some(p) ==> (self.all_locations@.len() == 0 && self.location is Some
                ==> p.location == self.location),
            r matches Some(p) ==> (self.all_locations@.len() == 0 && self.location is None
                ==> p.location == self.country),
            r matches Some(p) ==> ({
                let intro = match self.description {
                    Some(d) => d@,
                    None => Seq::empty(),
                };
                let closing = match self.additional {
                    Some(d) => d@,
                    None => Seq::empty(),
                };
                let whole = intro + texts(self.lists@).flatten() + closing;
                let fallback = match self.salary_description {
                    Some(d) => d@,
                    None => Seq::empty(),
                };
                p.description@ == if is_blank(whole) {
                    fallback
                } else {
                    whole
                }
            }),
            r matches Some(p) ==> (self.apply_url matches Some(u) ==> p.apply_url@ == u@),
            r matches Some(p) ==> (self.apply_url is None ==> (self.hosted_url matches Some(u)
                ==> p.apply_url@ == u@)),
            r matches Some(p) ==> (self.apply_url is None && self.hosted_url is None
                ==> p.apply_url@.len() == 0),
            r matches Some(p) ==> (self.workplace_type is None ==> p.remote is None),
            r matches Some(p) ==> (self.workplace_type matches Some(w) ==> opt_text(p.remote) == if has(
                lower_of(w@),
                "remote"@,
            ) {
                Some("remote"@)
            } else if has(lower_of(w@), "hybrid"@) {
                Some("hybrid"@)
            } else if has(lower_of(w@), "site"@) || has(lower_of(w@), "office"@) {
                Some("onsite"@)
            } else {
                None
            }),
    {
        proof {
            lemma_concatenated(texts(self.lists@));
        }
        let location = if self.all_locations.len() > 0 {
            Some(join_texts(&self.all_locations, " | "))
        } else if self.location.is_some() {
            copy_opt(&self.location)
        } else {
            copy_opt(&self.country)
        };
        Some(
            RawPosting {
                external_id: self.id.clone(),
                title: self.text.clone(),
                location,
                description: body(self),
                apply_url: first_text(&self.apply_url, &self.hosted_url),
                remote: canon_remote(&self.workplace_type),
            },
        )
    }
}

} // verus!
