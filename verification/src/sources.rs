//! Job sources: which systems there are, where their boards are, and how the
//! postings of each become the common form.

pub mod ashby;
pub mod greenhouse;
pub mod hn;
pub mod items;
pub mod lever;
pub mod recruitee;
pub mod remoteok;
pub mod remotive;
pub mod workable;

use vstd::prelude::*;

use crate::text::number::{decimal, u64_text};
use crate::text::{opt_text, same_text};

verus! {

/// What every request identifies itself with: the tool, honestly announced.
pub const USER_AGENT: &'static str =
    "jobpipe/0.1.0 (+https://github.com/jobpipe; personal job search)";

/// The most boards that are fetched at the same time.
pub const FETCH_CONCURRENCY: usize = 10;

/// A posting as it comes off a board, before normalization. Fields are the lowest
/// common denominator of the systems; `description` may contain HTML.
#[derive(Debug, Clone)]
pub struct RawPosting {
    pub external_id: String,
    pub title: String,
    pub location: Option<String>,
    pub description: String,
    pub apply_url: String,
    /// A canonical remote flag when the system states it explicitly
    /// (remote | hybrid | onsite). Without one it is inferred from the location.
    pub remote: Option<String>,
}

/// What a posting off a board says.
pub struct RawFields {
    pub external_id: Seq<char>,
    pub title: Seq<char>,
    pub location: Option<Seq<char>>,
    pub description: Seq<char>,
    pub apply_url: Seq<char>,
    pub remote: Option<Seq<char>>,
}

impl View for RawPosting {
    type V = RawFields;

    open spec fn view(&self) -> RawFields {
        RawFields {
            external_id: self.external_id@,
            title: self.title@,
            location: opt_text(self.location),
            description: self.description@,
            apply_url: self.apply_url@,
            remote: opt_text(self.remote),
        }
    }
}

// ---------------------------------------------------------------------------
// Errors
// ---------------------------------------------------------------------------

/// Why a board could not be fetched.
#[derive(Debug, Clone)]
pub enum FetchError {
    /// The request itself failed.
    Request(String),
    /// The board was not found: the company has likely changed its system.
    NotFound,
    /// The board answered with another status.
    Status { code: u16 },
}

impl FetchError {
    /// The message of the error.
    pub open spec fn text(self) -> Seq<char> {
        match self {
            FetchError::Request(s) => "http request failed: "@ + s@,
            FetchError::NotFound => "board not found (404)"@,
            FetchError::Status { code } => "board returned unexpected status "@ + decimal(
                code as nat,
            ),
        }
    }

    /// The message of the error.
    pub fn message(&self) -> (r: String)
        ensures
            r@ == self.text(),
            match self {
                FetchError::Request(e) => r@ == "http request failed: "@ + e@,
                FetchError::NotFound => r@ == "board not found (404)"@,
                FetchError::Status { code } => r@ == "board returned unexpected status "@ + decimal(
                    *code as nat,
                ),
            },
    {
        match self {
            FetchError::Request(e) => {
                let mut s = "http request failed: ".to_owned();
                s.append(e.as_str());
                s
            },
            FetchError::NotFound => "board not found (404)".to_owned(),
            FetchError::Status { code } => {
                let mut s = "board returned unexpected status ".to_owned();
                s.append(u64_text(*code as u64).as_str());
                s
            },
        }
    }
}

/// Accept a board's answer by its status: only 200 passes, 404 means that there is
/// no such board.
pub fn check_status(code: u16) -> (r: Result<(), FetchError>)
    ensures
        r == (if code == 200 {
            Ok::<(), FetchError>(())
        } else if code == 404 {
            Err::<(), FetchError>(FetchError::NotFound)
        } else {
            Err::<(), FetchError>(FetchError::Status { code })
        }),
{
    if code == 200 {
        Ok(())
    } else if code == 404 {
        Err(FetchError::NotFound)
    } else {
        Err(FetchError::Status { code })
    }
}

// ---------------------------------------------------------------------------
// Registry
// ---------------------------------------------------------------------------

/// The known sources.
#[derive(Debug, Clone, Copy, PartialEq, Eq, Structural)]
pub enum Source {
    Greenhouse,
    Lever,
    Ashby,
    Workable,
    Recruitee,
    RemoteOk,
    Remotive,
    HnWhoIsHiring,
}

impl Source {
    /// The name of the system that the source handles.
    pub open spec fn name(self) -> Seq<char> {
        match self {
            Source::Greenhouse => "greenhouse"@,
            Source::Lever => "lever"@,
            Source::Ashby => "ashby"@,
            Source::Workable => "workable"@,
            Source::Recruitee => "recruitee"@,
            Source::RemoteOk => "remoteok"@,
            Source::Remotive => "remotive"@,
            Source::HnWhoIsHiring => "hn-whoishiring"@,
        }
    }

    /// The name of the system that the source handles.
    pub fn ats(self) -> (r: &'static str)
        ensures
            r@ == self.name(),
    {
        match self {
            Source::Greenhouse => "greenhouse",
            Source::Lever => "lever",
            Source::Ashby => "ashby",
            Source::Workable => "workable",
            Source::Recruitee => "recruitee",
            Source::RemoteOk => "remoteok",
            Source::Remotive => "remotive",
            Source::HnWhoIsHiring => "hn-whoishiring",
        }
    }

    /// Where the source's board for a company is. The aggregators have one board
    /// for all companies.
    pub open spec fn address(self, slug: Seq<char>) -> Seq<char> {
        match self {
            Source::Greenhouse => "https://boards-api.greenhouse.io/v1/boards/"@ + slug
                + "/jobs?content=true"@,
            Source::Lever => "https://api.lever.co/v0/postings/"@ + slug + "?mode=json"@,
            Source::Ashby => "https://api.ashbyhq.com/posting-api/job-board/"@ + slug,
            Source::Workable => "https://apply.workable.com/api/v1/widget/accounts/"@ + slug
                + "?details=true"@,
            Source::Recruitee => "https://"@ + slug + ".recruitee.com/api/offers/"@,
            Source::RemoteOk => "https://remoteok.com/api"@,
            Source::Remotive => "https://remotive.com/api/remote-jobs"@,
            Source::HnWhoIsHiring =>
                "https://hn.algolia.com/api/v1/search_by_date?tags=story,author_whoishiring&hitsPerPage=8"@,
        }
    }

    /// Where the source's board for a company is.
    pub fn board_url(self, slug: &str) -> (r: String)
        ensures
            r@ == self.address(slug@),
    {
        match self {
            Source::Greenhouse => {
                let mut s = "https://boards-api.greenhouse.io/v1/boards/".to_owned();
                s.append(slug);
                s.append("/jobs?content=true");
                s
            },
            Source::Lever => {
                let mut s = "https://api.lever.co/v0/postings/".to_owned();
                s.append(slug);
                s.append("?mode=json");
                s
            },
            Source::Ashby => {
                let mut s = "https://api.ashbyhq.com/posting-api/job-board/".to_owned();
                s.append(slug);
                s
            },
            Source::Workable => {
                let mut s = "https://apply.workable.com/api/v1/widget/accounts/".to_owned();
                s.append(slug);
                s.append("?details=true");
                s
            },
            Source::Recruitee => {
                let mut s = "https://".to_owned();
                s.append(slug);
                s.append(".recruitee.com/api/offers/");
                s
            },
            Source::RemoteOk => "https://remoteok.com/api".to_owned(),
            Source::Remotive => "https://remotive.com/api/remote-jobs".to_owned(),
            Source::HnWhoIsHiring =>
                "https://hn.algolia.com/api/v1/search_by_date?tags=story,author_whoishiring&hitsPerPage=8".to_owned(),
        }
    }
}

/// Registry: the source that handles a system.
pub fn source_for(ats: &str) -> (r: Option<Source>)
    ensures
        r matches Some(s) ==> s.name() == ats@,
        forall|s: Source| #[trigger] s.name() == ats@ ==> r == Some(s),
{
    let r = if same_text(ats, "greenhouse") {
        Some(Source::Greenhouse)
    } else if same_text(ats, "lever") {
        Some(Source::Lever)
    } else if same_text(ats, "ashby") {
        Some(Source::Ashby)
    } else if same_text(ats, "workable") {
        Some(Source::Workable)
    } else if same_text(ats, "recruitee") {
        Some(Source::Recruitee)
    } else if same_text(ats, "remoteok") {
        Some(Source::RemoteOk)
    } else if same_text(ats, "remotive") {
        Some(Source::Remotive)
    } else if same_text(ats, "hn-whoishiring") {
        Some(Source::HnWhoIsHiring)
    } else {
        None
    };
    proof {
        assert forall|s: Source| #[trigger] s.name() == ats@ implies r == Some(s) by {
            match r {
                Some(x) => sources_have_distinct_names(x, s),
                None => {},
            }
        }
    }
    r
}

/// No two sources handle the same system.
pub proof fn sources_have_distinct_names(a: Source, b: Source)
    requires
        a.name() == b.name(),
    ensures
        a == b,
{
    reveal_strlit("greenhouse");
    reveal_strlit("lever");
    reveal_strlit("ashby");
    reveal_strlit("workable");
    reveal_strlit("recruitee");
    reveal_strlit("remoteok");
    reveal_strlit("remotive");
    reveal_strlit("hn-whoishiring");
    assert("lever"@ != "ashby"@) by {
        assert("lever"@[0] == 'l' && "ashby"@[0] == 'a');
    }
    assert("workable"@ != "remoteok"@ && "workable"@ != "remotive"@) by {
        assert("workable"@[0] == 'w' && "remoteok"@[0] == 'r' && "remotive"@[0] == 'r');
    }
    assert("remoteok"@ != "remotive"@) by {
        assert("remoteok"@[5] == 'e' && "remotive"@[5] == 'i');
    }
    assert("greenhouse"@.len() == 10 && "lever"@.len() == 5 && "ashby"@.len() == 5);
    assert("workable"@.len() == 8 && "recruitee"@.len() == 9 && "remoteok"@.len() == 8);
    assert("remotive"@.len() == 8 && "hn-whoishiring"@.len() == 14);
    match a {
        Source::Greenhouse => {},
        Source::Lever => {},
        Source::Ashby => {},
        Source::Workable => {},
        Source::Recruitee => {},
        Source::RemoteOk => {},
        Source::Remotive => {},
        Source::HnWhoIsHiring => {},
    }
}

/// Each system has the name that boards are detected and stored under, and its board of
/// a company is found by the slug, which stands in the address as it is. The aggregators
/// have one board whatever the slug.
pub proof fn boards_are_found_by_slug(slug: Seq<char>)
    ensures
        Source::Greenhouse.name() == "greenhouse"@,
        Source::Lever.name() == "lever"@,
        Source::Ashby.name() == "ashby"@,
        Source::Workable.name() == "workable"@,
        Source::Recruitee.name() == "recruitee"@,
        Source::RemoteOk.name() == "remoteok"@,
        Source::Remotive.name() == "remotive"@,
        Source::HnWhoIsHiring.name() == "hn-whoishiring"@,
        Source::Greenhouse.address(slug) == "https://boards-api.greenhouse.io/v1/boards/"@ + slug
            + "/jobs?content=true"@,
        Source::Lever.address(slug) == "https://api.lever.co/v0/postings/"@ + slug + "?mode=json"@,
        Source::Ashby.address(slug) == "https://api.ashbyhq.com/posting-api/job-board/"@ + slug,
        Source::Workable.address(slug) == "https://apply.workable.com/api/v1/widget/accounts/"@
            + slug + "?details=true"@,
        Source::Recruitee.address(slug) == "https://"@ + slug + ".recruitee.com/api/offers/"@,
        Source::RemoteOk.address(slug) == "https://remoteok.com/api"@,
        Source::Remotive.address(slug) == "https://remotive.com/api/remote-jobs"@,
        Source::HnWhoIsHiring.address(slug)
            == "https://hn.algolia.com/api/v1/search_by_date?tags=story,author_whoishiring&hitsPerPage=8"@,
{
}

/// Two companies never share a board's address, unless it is that of an aggregator.
pub proof fn companies_have_their_own_addresses(s: Source, a: Seq<char>, b: Seq<char>)
    requires
        s is Greenhouse || s is Lever || s is Ashby || s is Workable || s is Recruitee,
        s.address(a) == s.address(b),
    ensures
        a == b,
{
    let before = match s {
        Source::Greenhouse => "https://boards-api.greenhouse.io/v1/boards/"@,
        Source::Lever => "https://api.lever.co/v0/postings/"@,
        Source::Ashby => "https://api.ashbyhq.com/posting-api/job-board/"@,
        Source::Workable => "https://apply.workable.com/api/v1/widget/accounts/"@,
        _ => "https://"@,
    };
    let after = match s {
        Source::Greenhouse => "/jobs?content=true"@,
        Source::Lever => "?mode=json"@,
        Source::Ashby => Seq::empty(),
        Source::Workable => "?details=true"@,
        _ => ".recruitee.com/api/offers/"@,
    };
    let n = before.len() as int;
    assert(s.address(a) =~= before + a + after);
    assert(s.address(b) =~= before + b + after);
    assert(s.address(a).len() == n + a.len() + after.len());
    assert(s.address(b).len() == n + b.len() + after.len());
    assert(s.address(a).subrange(n, n + a.len()) =~= a);
    assert(s.address(b).subrange(n, n + b.len()) =~= b);
}

// ---------------------------------------------------------------------------
// Listings
// ---------------------------------------------------------------------------

/// An item that a board lists.
pub trait Listing {
    /// What the item says as a posting, if it is one.
    spec fn shown(&self) -> Option<RawFields>;

    /// The item as a posting, if it is one.
    fn posting(&self) -> (r: Option<RawPosting>)
        ensures
            opt_fields(r) == self.shown(),
    ;
}

/// What a posting says, if there is one.
pub open spec fn opt_fields(o: Option<RawPosting>) -> Option<RawFields> {
    match o {
        Some(p) => Some(p@),
        None => None,
    }
}

/// What the items of a board say as postings, in order.
pub open spec fn listed<T: Listing>(items: Seq<T>) -> Seq<RawFields>
    decreases items.len(),
{
    if items.len() == 0 {
        Seq::empty()
    } else {
        let front = listed(items.drop_last());
        match items.last().shown() {
            Some(f) => front.push(f),
            None => front,
        }
    }
}

/// What postings say.
pub open spec fn all_fields(v: Seq<RawPosting>) -> Seq<RawFields> {
    v.map_values(|p: RawPosting| p@)
}

/// The postings of a board, in order.
pub fn postings<T: Listing>(items: &Vec<T>) -> (r: Vec<RawPosting>)
    ensures
        all_fields(r@) == listed(items@),
{
    let mut out: Vec<RawPosting> = Vec::new();
    let mut i: usize = 0;
    assert(all_fields(out@) =~= listed(items@.take(0)));
    while i < items.len()
        invariant
            i <= items.len(),
            all_fields(out@) == listed(items@.take(i as int)),
        decreases items.len() - i,
    {
        assert(items@.take(i + 1).drop_last() =~= items@.take(i as int));
        assert(items@.take(i + 1).last() == items@[i as int]);
        let ghost before = out@;
        match items[i].posting() {
            Some(p) => {
                out.push(p);
                assert(all_fields(out@) =~= all_fields(before).push(p@));
            },
            None => {},
        }
        i += 1;
    }
    assert(items@.take(items.len() as int) =~= items@);
    out
}

/// Every item of a board that is a posting is listed, once and in order, and nothing
/// else is.
pub proof fn every_posting_is_listed<T: Listing>(a: Seq<T>, x: T, b: Seq<T>)
    ensures
        x.shown() matches Some(f) ==> listed(a.push(x) + b) == listed(a).push(f) + listed(b),
        x.shown() is None ==> listed(a.push(x) + b) == listed(a) + listed(b),
        listed(Seq::<T>::empty()) == Seq::<RawFields>::empty(),
    decreases b.len(),
{
    if b.len() == 0 {
        assert(a.push(x) + b =~= a.push(x));
        assert(a.push(x).drop_last() =~= a);
        assert(listed(b) =~= Seq::empty());
        assert(listed(a) + listed(b) =~= listed(a));
        match x.shown() {
            Some(f) => {
                assert(listed(a).push(f) + listed(b) =~= listed(a).push(f));
            },
            None => {},
        }
    } else {
        let d = b.drop_last();
        every_posting_is_listed(a, x, d);
        let all = a.push(x) + b;
        assert(all.drop_last() =~= a.push(x) + d);
        assert(all.last() == b.last());
        match b.last().shown() {
            Some(g) => {
                match x.shown() {
                    Some(f) => {
                        assert(listed(all) =~= listed(a).push(f) + listed(b));
                    },
                    None => {
                        assert(listed(all) =~= listed(a) + listed(b));
                    },
                }
            },
            None => {},
        }
    }
}

/// The first of two optional texts that is there, or the empty text.
pub open spec fn first_of(a: Option<Seq<char>>, b: Option<Seq<char>>) -> Seq<char> {
    match a {
        Some(s) => s,
        None => or_empty(b),
    }
}

/// An optional text, or the empty text.
pub open spec fn or_empty(o: Option<Seq<char>>) -> Seq<char> {
    match o {
        Some(s) => s,
        None => Seq::empty(),
    }
}

/// A text, unless it is empty.
pub open spec fn unless_empty(o: Option<Seq<char>>) -> Option<Seq<char>> {
    match o {
        Some(s) => if s.len() == 0 {
            None
        } else {
            Some(s)
        },
        None => None,
    }
}

/// The first of two optional texts that is there, or the empty text.
pub(crate) fn first_text(a: &Option<String>, b: &Option<String>) -> (r: String)
    ensures
        r@ == first_of(opt_text(*a), opt_text(*b)),
{
    match a {
        Some(s) => s.clone(),
        None => text_or_empty(b),
    }
}

/// An optional text, or the empty text.
pub(crate) fn text_or_empty(o: &Option<String>) -> (r: String)
    ensures
        r@ == or_empty(opt_text(*o)),
{
    match o {
        Some(s) => s.clone(),
        None => String::new(),
    }
}

/// A text, unless it is empty.
pub(crate) fn text_unless_empty(o: &Option<String>) -> (r: Option<String>)
    ensures
        opt_text(r) == unless_empty(opt_text(*o)),
{
    match o {
        Some(s) => if s.as_str().is_empty() {
            None
        } else {
            Some(s.clone())
        },
        None => None,
    }
}

/// A title with the company's name in front, if there is one.
pub open spec fn titled(company: Option<Seq<char>>, title: Seq<char>) -> Seq<char> {
    match unless_empty(company) {
        Some(c) => c + " — "@ + title,
        None => title,
    }
}

/// A title with the company's name in front, if there is one.
pub(crate) fn title_with(company: &Option<String>, title: &str) -> (r: String)
    ensures
        r@ == titled(opt_text(*company), title@),
{
    match text_unless_empty(company) {
        Some(c) => {
            let mut s = c;
            s.append(" — ");
            s.append(title);
            s
        },
        None => title.to_owned(),
    }
}

} // verus!
