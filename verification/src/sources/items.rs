//! What the items of the boards say of a posting.

use vstd::prelude::*;

use crate::html::html_decoded;
use crate::sources::ashby::AshbyJob;
use crate::sources::greenhouse::GhJob;
use crate::sources::hn::Comment;
use crate::sources::lever::LvPosting;
use crate::sources::recruitee::RcOffer;
use crate::sources::remoteok::RokEntry;
use crate::sources::remotive::RmvJob;
use crate::sources::workable::WkJob;
use crate::sources::Listing;
use crate::text::number::decimal_int;
use crate::text::search::has;
use crate::text::{is_blank, opt_text};
use crate::unicode::lower_of;

verus! {

/// A Greenhouse job is a posting under its own title, id and address; its content is
/// the description, decoded.
pub proof fn greenhouse_jobs_are_postings(j: GhJob)
    ensures
        j.shown() matches Some(f) && f.title == j.title@ && f.external_id == decimal_int(
            j.id as int,
        ) && f.apply_url == j.absolute_url@ && f.location == opt_text(j.location) && f.remote
            is None,
        j.content matches Some(c) ==> j.shown()->Some_0.description == if c@.contains('&') {
            html_decoded(c@)
        } else {
            c@
        },
        j.content is None ==> j.shown()->Some_0.description.len() == 0,
{
}

/// A Lever posting keeps its text as the title and its id; the page to apply on counts
/// before the one it is hosted on.
pub proof fn lever_postings_are_postings(j: LvPosting)
    ensures
        j.shown() matches Some(f) && f.title == j.text@ && f.external_id == j.id@,
        j.apply_url matches Some(u) ==> j.shown()->Some_0.apply_url == u@,
        j.apply_url is None ==> (j.hosted_url matches Some(u) ==> j.shown()->Some_0.apply_url
            == u@),
        j.all_locations@.len() == 0 && j.location is Some ==> j.shown()->Some_0.location
            == opt_text(j.location),
        j.all_locations@.len() == 0 && j.location is None ==> j.shown()->Some_0.location
            == opt_text(j.country),
        j.workplace_type is None ==> j.shown()->Some_0.remote is None,
        j.workplace_type matches Some(w) ==> (has(lower_of(w@), "remote"@)
            ==> j.shown()->Some_0.remote == Some("remote"@)),
        j.workplace_type matches Some(w) ==> (!(has(lower_of(w@), "remote"@)) && has(
            lower_of(w@),
            "hybrid"@,
        ) ==> j.shown()->Some_0.remote == Some("hybrid"@)),
{
}

/// An Ashby job keeps its title and id; the page to apply on counts before that of the
/// job.
pub proof fn ashby_jobs_are_postings(j: AshbyJob)
    ensures
        j.shown() matches Some(f) && f.title == j.title@ && f.external_id == j.id@,
        j.description_html matches Some(d) ==> j.shown()->Some_0.description == d@,
        j.apply_url matches Some(u) ==> j.shown()->Some_0.apply_url == u@,
        j.apply_url is None ==> (j.job_url matches Some(u) ==> j.shown()->Some_0.apply_url == u@),
        j.workplace_type is None ==> j.shown()->Some_0.remote == if j.is_remote == Some(true) {
            Some("remote"@)
        } else {
            None
        },
        j.workplace_type matches Some(w) ==> (has(lower_of(w@), "hybrid"@)
            ==> j.shown()->Some_0.remote == Some("hybrid"@)),
        j.workplace_type matches Some(w) ==> (!(has(lower_of(w@), "hybrid"@)) && has(
            lower_of(w@),
            "remote"@,
        ) ==> j.shown()->Some_0.remote == Some("remote"@)),
{
}

/// A Workable job keeps its title and has its shortcode as id; the page to apply on
/// counts before that of the job.
pub proof fn workable_jobs_are_postings(j: WkJob)
    ensures
        j.shown() matches Some(f) && f.title == j.title@ && f.external_id == j.shortcode@,
        j.description matches Some(d) ==> j.shown()->Some_0.description == d@,
        j.application_url matches Some(u) ==> j.shown()->Some_0.apply_url == u@,
        j.application_url is None ==> (j.url matches Some(u) ==> j.shown()->Some_0.apply_url == u@),
        j.telecommuting == Some(true) ==> j.shown()->Some_0.remote == Some("remote"@),
        j.telecommuting != Some(true) ==> j.shown()->Some_0.remote is None,
{
}

/// A Recruitee offer keeps its title, id and location; the page to apply on counts before
/// that of the offer, and remote before hybrid.
pub proof fn recruitee_offers_are_postings(j: RcOffer)
    ensures
        j.shown() matches Some(f) && f.title == j.title@ && f.external_id == decimal_int(
            j.id as int,
        ) && f.location == opt_text(j.location),
        j.description matches Some(d) ==> j.shown()->Some_0.description == d@,
        j.careers_apply_url matches Some(u) ==> j.shown()->Some_0.apply_url == u@,
        j.careers_apply_url is None ==> (j.careers_url matches Some(u)
            ==> j.shown()->Some_0.apply_url == u@),
        j.remote == Some(true) ==> j.shown()->Some_0.remote == Some("remote"@),
        j.remote != Some(true) && j.hybrid == Some(true) ==> j.shown()->Some_0.remote == Some(
            "hybrid"@,
        ),
        j.remote != Some(true) && j.hybrid != Some(true) ==> j.shown()->Some_0.remote is None,
{
}

/// A RemoteOK entry with an id and a position is a remote posting, titled with the
/// company in front; any other entry is none.
pub proof fn remoteok_entries_are_remote_postings(j: RokEntry)
    ensures
        j.shown() is Some <==> j.id is Some && j.position is Some,
        j.shown() matches Some(f) ==> f.external_id == j.id->Some_0@ && f.remote == Some(
            "remote"@,
        ),
        j.shown() matches Some(f) ==> (j.company matches Some(c) ==> (c@.len() > 0 ==> f.title
            == c@ + " — "@ + j.position->Some_0@)),
        j.shown() matches Some(f) ==> (j.company is None ==> f.title == j.position->Some_0@),
        j.shown() matches Some(f) ==> (j.description matches Some(d) ==> f.description == d@),
        j.shown() matches Some(f) ==> (j.apply_url matches Some(u) ==> f.apply_url == u@),
{
}

/// A Remotive job is a remote posting under its id, titled with the company in front.
pub proof fn remotive_jobs_are_remote_postings(j: RmvJob)
    ensures
        j.shown() matches Some(f) && f.external_id == decimal_int(j.id as int) && f.remote == Some(
            "remote"@,
        ),
        j.company_name matches Some(c) ==> (c@.len() > 0 ==> j.shown()->Some_0.title == c@
            + " — "@ + j.title@),
        j.company_name is None ==> j.shown()->Some_0.title == j.title@,
        j.description matches Some(d) ==> j.shown()->Some_0.description == d@,
        j.url matches Some(u) ==> j.shown()->Some_0.apply_url == u@,
{
}

/// A comment with a text is a posting at its own address; what it says is the
/// description.
pub proof fn comments_are_postings(c: Comment)
    ensures
        c.shown() is Some <==> c.text is Some && !is_blank(c.text->Some_0@),
        c.shown() matches Some(f) ==> f.external_id == decimal_int(c.id as int) && f.apply_url
            == "https://news.ycombinator.com/item?id="@ + decimal_int(c.id as int) && f.description
            == c.text->Some_0@ && f.location is None && f.remote is None,
{
}

} // verus!
