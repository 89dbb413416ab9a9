//! Detection of the job board behind a careers address: by the shape of the
//! address, and else by the board's marks in the page.

pub mod addresses;
pub mod shapes;

use vstd::prelude::*;

use crate::pattern::{is_marker_group, marker_group, marker_pattern, regex_group};
use crate::text::search::{begins, begins_with, contains_char, cut, cut_at, ends, ends_with};
use crate::text::words::{join, join_texts, split, split_on};
use crate::text::{
    as_opt_str, chars_of, opt_str, opt_text, range_of, same_text, string_of, texts, trim,
    trim_text,
};
use crate::unicode::{lower_of, upper, upper_of};

verus! {

/// A detected board, with a display name for the company.
#[derive(Debug, Clone)]
pub struct Detected {
    pub ats: String,
    pub slug: String,
    pub name: String,
}

impl Detected {
    /// The board: the system and the company's name there.
    pub open spec fn board(self) -> (Seq<char>, Seq<char>) {
        (self.ats@, self.slug@)
    }

    /// A board under the display name that its slug gives.
    pub fn new(ats: &str, slug: &str) -> (r: Detected)
        ensures
            r.board() == (ats@, slug@),
            r.name@ == title_of(slug@),
    {
        Detected { ats: ats.to_owned(), slug: slug.to_owned(), name: title_case(slug) }
    }
}

/// The board of a detection, if there is one.
pub open spec fn opt_board(o: Option<Detected>) -> Option<(Seq<char>, Seq<char>)> {
    match o {
        Some(d) => Some(d.board()),
        None => None,
    }
}

/// Whether a detection, if there is one, is named after its slug.
pub open spec fn is_named(o: Option<Detected>) -> bool {
    o matches Some(d) ==> d.name@ == title_of(d.slug@)
}

// ---------------------------------------------------------------------------
// Display names
// ---------------------------------------------------------------------------

/// A slug with its underscores written as dashes.
pub open spec fn dashed(slug: Seq<char>) -> Seq<char> {
    slug.map_values(
        |c: char|
            if c == '_' {
                '-'
            } else {
                c
            },
    )
}

/// Whether a text is not empty.
pub open spec fn is_filled() -> spec_fn(Seq<char>) -> bool {
    |s: Seq<char>| s.len() > 0
}

/// A word with its first character in upper case.
pub open spec fn capitalized(w: Seq<char>) -> Seq<char> {
    upper_of(w[0]) + w.skip(1)
}

/// The words of a slug, between dashes and underscores, capitalized.
pub open spec fn title_words(slug: Seq<char>) -> Seq<Seq<char>> {
    split(dashed(slug), '-').filter(is_filled()).map_values(|w: Seq<char>| capitalized(w))
}

/// The display name of a slug: its words, capitalized, with spaces between them.
pub open spec fn title_of(slug: Seq<char>) -> Seq<char> {
    join(title_words(slug), seq![' '])
}

/// The fields that are not empty.
fn filled(fields: Vec<String>) -> (r: Vec<String>)
    ensures
        texts(r@) == texts(fields@).filter(is_filled()),
{
    let mut out: Vec<String> = Vec::new();
    let mut i: usize = 0;
    proof {
        reveal(Seq::filter);
        assert(texts(fields@).take(0).filter(is_filled()) =~= Seq::empty());
        assert(texts(out@) =~= texts(fields@).take(0).filter(is_filled()));
    }
    while i < fields.len()
        invariant
            i <= fields.len(),
            texts(out@) == texts(fields@).take(i as int).filter(is_filled()),
        decreases fields.len() - i,
    {
        let ghost all = texts(fields@);
        let ghost before = out@;
        proof {
            reveal(Seq::filter);
            assert(all.take(i + 1).drop_last() =~= all.take(i as int));
            assert(all.take(i + 1).last() == fields@[i as int]@);
        }
        if !fields[i].as_str().is_empty() {
            out.push(fields[i].clone());
            assert(texts(out@) =~= texts(before).push(fields@[i as int]@));
        }
        i += 1;
    }
    assert(texts(fields@).take(fields.len() as int) =~= texts(fields@));
    out
}

/// Turn a slug like `acme-corp` into a display name `Acme Corp`.
pub fn title_case(slug: &str) -> (r: String)
    ensures
        r@ == title_of(slug@),
{
    let v = chars_of(slug);
    let mut d: Vec<char> = Vec::new();
    let mut i: usize = 0;
    while i < v.len()
        invariant
            i <= v.len(),
            v@ == slug@,
            d@ =~= dashed(slug@).take(i as int),
        decreases v.len() - i,
    {
        d.push(
            if v[i] == '_' {
                '-'
            } else {
                v[i]
            },
        );
        i += 1;
    }
    assert(d@ =~= dashed(slug@));
    let fields = filled(split_on(d.as_slice(), '-'));
    let ghost f = |w: Seq<char>| capitalized(w);
    let ghost ws = split(dashed(slug@), '-').filter(is_filled());
    let mut out: Vec<String> = Vec::new();
    let mut k: usize = 0;
    while k < fields.len()
        invariant
            k <= fields.len(),
            texts(fields@) == ws,
            ws == split(dashed(slug@), '-').filter(is_filled()),
            f == (|w: Seq<char>| capitalized(w)),
            texts(out@) =~= ws.take(k as int).map_values(f),
        decreases fields.len() - k,
    {
        let w = chars_of(fields[k].as_str());
        assert(w@ == ws[k as int]);
        proof {
            lemma_filled(split(dashed(slug@), '-'), k as int);
        }
        let mut s = upper(w[0]);
        let rest = range_of(w.as_slice(), 1, w.len());
        s.append(string_of(rest.as_slice()).as_str());
        assert(rest@ =~= w@.skip(1));
        let ghost before = out@;
        out.push(s);
        assert(texts(out@) =~= texts(before).push(s@));
        k += 1;
    }
    assert(ws.take(fields.len() as int) =~= ws);
    proof {
        reveal_strlit(" ");
        assert(" "@ =~= seq![' ']);
    }
    join_texts(&out, " ")
}

/// What is kept is not empty.
proof fn lemma_filled(fields: Seq<Seq<char>>, k: int)
    requires
        0 <= k < fields.filter(is_filled()).len(),
    ensures
        fields.filter(is_filled())[k].len() > 0,
{
    broadcast use vstd::seq_lib::group_filter_ensures;

}

// ---------------------------------------------------------------------------
// Addresses
// ---------------------------------------------------------------------------

/// An address without surrounding whitespace and without its scheme.
pub open spec fn bare(url: Seq<char>) -> Seq<char> {
    let s = trim(url);
    if begins(s, "https://"@) {
        s.skip(8)
    } else if begins(s, "http://"@) {
        s.skip(7)
    } else {
        s
    }
}

/// The part of an address before a question mark.
pub open spec fn path_of(url: Seq<char>) -> Seq<char> {
    match cut(bare(url), '?') {
        Some((p, _)) => p,
        None => bare(url),
    }
}

/// The part of an address after the first question mark.
pub open spec fn query_of(url: Seq<char>) -> Option<Seq<char>> {
    match cut(bare(url), '?') {
        Some((_, q)) => Some(q),
        None => None,
    }
}

/// The fields of the path that are not empty: the host and the segments.
pub open spec fn segments_of(url: Seq<char>) -> Seq<Seq<char>> {
    split(path_of(url), '/').filter(is_filled())
}

/// The host as it is written.
pub open spec fn host_of(url: Seq<char>) -> Seq<char> {
    if segments_of(url).len() > 0 {
        segments_of(url)[0]
    } else {
        ""@
    }
}

/// The first segment behind the host.
pub open spec fn segment_of(url: Seq<char>) -> Option<Seq<char>> {
    if segments_of(url).len() > 1 {
        Some(segments_of(url)[1])
    } else {
        None
    }
}

/// Parse the host in lower case, the first path segment and the query from an
/// address that may lack a scheme.
pub fn parts(url: &str) -> (r: (String, Option<String>, Option<String>))
    ensures
        r.0@ == lower_of(host_of(url@)),
        opt_text(r.1) == segment_of(url@),
        opt_text(r.2) == query_of(url@),
{
    let s = trim_text(url);
    let v = chars_of(s.as_str());
    proof {
        reveal_strlit("https://");
        reveal_strlit("http://");
    }
    let b = if begins_with(s.as_str(), "https://") {
        let rest = range_of(v.as_slice(), 8, v.len());
        assert(rest@ =~= v@.skip(8));
        string_of(rest.as_slice())
    } else if begins_with(s.as_str(), "http://") {
        let rest = range_of(v.as_slice(), 7, v.len());
        assert(rest@ =~= v@.skip(7));
        string_of(rest.as_slice())
    } else {
        s
    };
    assert(b@ == bare(url@));
    let (path, query) = match cut_at(b.as_str(), '?') {
        Some((p, q)) => (p, Some(q)),
        None => (b, None),
    };
    let segs = filled(split_on(chars_of(path.as_str()).as_slice(), '/'));
    assert(texts(segs@) == segments_of(url@));
    assert(segs@.len() == segments_of(url@).len());
    let host = if segs.len() > 0 {
        assert(segs@[0]@ == texts(segs@)[0]);
        segs[0].as_str().to_lowercase()
    } else {
        "".to_lowercase()
    };
    let seg0 = if segs.len() > 1 {
        assert(segs@[1]@ == texts(segs@)[1]);
        Some(segs[1].clone())
    } else {
        None
    };
    (host, seg0, query)
}

/// The value of the first field of a query with the key.
pub open spec fn field_value(fields: Seq<Seq<char>>, key: Seq<char>) -> Option<Seq<char>>
    decreases fields.len(),
{
    if fields.len() == 0 {
        None
    } else {
        match cut(fields[0], '=') {
            Some((k, v)) => if k == key {
                Some(v)
            } else {
                field_value(fields.drop_first(), key)
            },
            None => field_value(fields.drop_first(), key),
        }
    }
}

/// The value of a key in a query.
pub open spec fn value_in(query: Option<Seq<char>>, key: Seq<char>) -> Option<Seq<char>> {
    match query {
        Some(q) => field_value(split(q, '&'), key),
        None => None,
    }
}

/// The value of a key in a query.
pub fn query_value(query: Option<&str>, key: &str) -> (r: Option<String>)
    ensures
        opt_text(r) == value_in(opt_str(query), key@),
{
    match query {
        None => None,
        Some(q) => {
            let fields = split_on(chars_of(q).as_slice(), '&');
            let mut i: usize = 0;
            assert(texts(fields@).skip(0) =~= texts(fields@));
            while i < fields.len()
                invariant
                    i <= fields.len(),
                    query == Some(q),
                    texts(fields@) == split(q@, '&'),
                    field_value(texts(fields@), key@) == field_value(
                        texts(fields@).skip(i as int),
                        key@,
                    ),
                decreases fields.len() - i,
            {
                let ghost rest = texts(fields@).skip(i as int);
                assert(rest[0] == fields@[i as int]@);
                assert(rest.drop_first() =~= texts(fields@).skip(i + 1));
                match cut_at(fields[i].as_str(), '=') {
                    Some((k, v)) => if same_text(k.as_str(), key) {
                        return Some(v);
                    },
                    None => {},
                }
                i += 1;
            }
            None
        },
    }
}

/// A text without the dots at its end.
pub open spec fn without_dots(s: Seq<char>) -> Seq<char>
    decreases s.len(),
{
    if s.len() > 0 && s.last() == '.' {
        without_dots(s.drop_last())
    } else {
        s
    }
}

/// The single label in front of a root domain.
pub open spec fn label_under(host: Seq<char>, root: Seq<char>) -> Option<Seq<char>> {
    if ends(host, root) {
        let s = without_dots(host.take(host.len() - root.len()));
        if s.len() > 0 && !s.contains('.') {
            Some(s)
        } else {
            None
        }
    } else {
        None
    }
}

/// The single label in front of a root domain.
pub fn subdomain(host: &str, root: &str) -> (r: Option<String>)
    ensures
        opt_text(r) == label_under(host@, root@),
{
    if !ends_with(host, root) {
        return None;
    }
    let v = chars_of(host);
    let mut n: usize = v.len() - chars_of(root).len();
    let ghost front = host@.take(host@.len() - root@.len());
    assert(v@.take(n as int) =~= front);
    while n > 0 && v[n - 1] == '.'
        invariant
            n <= v.len(),
            without_dots(v@.take(n as int)) == without_dots(front),
        decreases n,
    {
        assert(v@.take(n as int).drop_last() =~= v@.take(n - 1));
        n -= 1;
    }
    assert(without_dots(v@.take(n as int)) == v@.take(n as int));
    let label = string_of(range_of(v.as_slice(), 0, n).as_slice());
    assert(label@ =~= v@.take(n as int));
    if n == 0 || contains_char(label.as_str(), '.') {
        None
    } else {
        Some(label)
    }
}

/// The board that a host, a first segment and a query belong to.
pub open spec fn board_at(
    host: Seq<char>,
    segment: Option<Seq<char>>,
    query: Option<Seq<char>>,
) -> Option<(Seq<char>, Seq<char>)> {
    if ends(host, "greenhouse.io"@) {
        if segment == Some("embed"@) {
            on("greenhouse"@, value_in(query, "for"@))
        } else if segment is Some && segment != Some("job_board"@) {
            on("greenhouse"@, segment)
        } else {
            on(
                "greenhouse"@,
                unless(
                    label_under(host, "greenhouse.io"@),
                    seq!["boards"@, "job-boards"@, "boards-api"@],
                ),
            )
        }
    } else if host == "jobs.lever.co"@ {
        on("lever"@, segment)
    } else if host == "jobs.ashbyhq.com"@ || host == "ashbyhq.com"@ {
        on("ashby"@, segment)
    } else if host == "apply.workable.com"@ {
        on("workable"@, segment)
    } else if unless(label_under(host, "workable.com"@), seq!["apply"@, "www"@]) is Some {
        on("workable"@, label_under(host, "workable.com"@))
    } else {
        on("recruitee"@, unless(label_under(host, "recruitee.com"@), seq!["www"@]))
    }
}

/// The board of a system under a slug, if there is one.
pub open spec fn on(ats: Seq<char>, slug: Option<Seq<char>>) -> Option<(Seq<char>, Seq<char>)> {
    match slug {
        Some(s) => Some((ats, s)),
        None => None,
    }
}

/// A text, unless it is one of the excluded ones.
pub open spec fn unless(o: Option<Seq<char>>, excluded: Seq<Seq<char>>) -> Option<Seq<char>> {
    match o {
        Some(s) => if excluded.contains(s) {
            None
        } else {
            Some(s)
        },
        None => None,
    }
}

/// A detection on a system under a slug, if there is one.
fn detected(ats: &str, slug: &Option<String>) -> (r: Option<Detected>)
    ensures
        opt_board(r) == on(ats@, opt_text(*slug)),
        is_named(r),
{
    match slug {
        Some(s) => Some(Detected::new(ats, s.as_str())),
        None => None,
    }
}

/// Whether a text is one of the listed ones.
fn is_one_of(s: &str, list: &[&'static str]) -> (r: bool)
    ensures
        r == list@.map_values(|t: &'static str| t@).contains(s@),
{
    let ghost all = list@.map_values(|t: &'static str| t@);
    let mut i: usize = 0;
    while i < list.len()
        invariant
            i <= list.len(),
            all == list@.map_values(|t: &'static str| t@),
            forall|k: int| 0 <= k < i ==> all[k] != s@,
        decreases list.len() - i,
    {
        if same_text(list[i], s) {
            assert(all[i as int] == s@);
            return true;
        }
        i += 1;
    }
    false
}

/// A text, unless it is one of the excluded ones.
fn unless_one_of(o: Option<String>, excluded: &[&'static str]) -> (r: Option<String>)
    ensures
        opt_text(r) == unless(
            opt_text(o),
            excluded@.map_values(|t: &'static str| t@),
        ),
{
    match o {
        Some(s) => if is_one_of(s.as_str(), excluded) {
            None
        } else {
            Some(s)
        },
        None => None,
    }
}

/// The board that a host in lower case, a first segment and a query belong to.
pub fn from_parts(host: &str, seg0: &Option<String>, query: &Option<String>) -> (r: Option<
    Detected,
>)
    ensures
        opt_board(r) == board_at(host@, opt_text(*seg0), opt_text(*query)),
        is_named(r),
{
    if ends_with(host, "greenhouse.io") {
        // boards.greenhouse.io/acme, job-boards.greenhouse.io/acme, or
        // boards.greenhouse.io/embed/job_board?for=acme
        let plain = match seg0 {
            Some(s) => {
                if same_text(s.as_str(), "embed") {
                    let value = query_value(as_opt_str(query), "for");
                    return detected("greenhouse", &value);
                }
                !same_text(s.as_str(), "job_board")
            },
            None => false,
        };
        if plain {
            return detected("greenhouse", seg0);
        }
        let reserved = ["boards", "job-boards", "boards-api"];
        let label = unless_one_of(subdomain(host, "greenhouse.io"), &reserved);
        assert(reserved@.map_values(|t: &'static str| t@)
            =~= seq!["boards"@, "job-boards"@, "boards-api"@]);
        return detected("greenhouse", &label);
    }
    if same_text(host, "jobs.lever.co") {
        return detected("lever", seg0);
    }
    if same_text(host, "jobs.ashbyhq.com") || same_text(host, "ashbyhq.com") {
        return detected("ashby", seg0);
    }
    if same_text(host, "apply.workable.com") {
        return detected("workable", seg0);
    }
    let reserved = ["apply", "www"];
    let label = unless_one_of(subdomain(host, "workable.com"), &reserved);
    assert(reserved@.map_values(|t: &'static str| t@) =~= seq!["apply"@, "www"@]);
    if label.is_some() {
        return detected("workable", &label);
    }
    let reserved = ["www"];
    let label = unless_one_of(subdomain(host, "recruitee.com"), &reserved);
    assert(reserved@.map_values(|t: &'static str| t@) =~= seq!["www"@]);
    detected("recruitee", &label)
}

/// The board that the shape of an address gives.
pub open spec fn sniffed(url: Seq<char>) -> Option<(Seq<char>, Seq<char>)> {
    board_at(lower_of(host_of(url)), segment_of(url), query_of(url))
}

/// Detect from the shape of the address alone.
pub fn from_url(url: &str) -> (r: Option<Detected>)
    ensures
        opt_board(r) == sniffed(url@),
        is_named(r),
{
    let (host, seg0, query) = parts(url);
    from_parts(host.as_str(), &seg0, &query)
}

// ---------------------------------------------------------------------------
// Marks in a page
// ---------------------------------------------------------------------------

/// The page holds no mark of a known system.
#[derive(Debug, Clone, Copy, PartialEq, Eq, Structural)]
pub struct NoMarkers;

impl NoMarkers {
    /// The message of the error.
    pub fn message(&self) -> (r: String)
        ensures
            r@ == "no known ATS markers found in page"@,
    {
        "no known ATS markers found in page".to_owned()
    }
}

/// The number of marks that are looked for.
pub const MARKERS: usize = 7;

/// The system that a mark belongs to, from the most specific mark on.
pub open spec fn marker_ats(i: int) -> Seq<char> {
    if i == 0 || i == 1 {
        "greenhouse"@
    } else if i == 2 {
        "lever"@
    } else if i == 3 {
        "ashby"@
    } else if i == 4 || i == 5 {
        "workable"@
    } else {
        "recruitee"@
    }
}

/// The names that a mark may hold which are no company's.
pub open spec fn reserved_slugs() -> Seq<Seq<char>> {
    seq!["apply"@, "www"@, "boards"@, "job-boards"@]
}

/// The board of the first mark from `i` on that holds a company's name.
pub open spec fn marked_board(found: Seq<Option<Seq<char>>>, i: int) -> Option<
    (Seq<char>, Seq<char>),
>
    decreases found.len() - i,
{
    if i < 0 || i >= found.len() {
        None
    } else if unless(found[i], reserved_slugs()) is Some {
        on(marker_ats(i), found[i])
    } else {
        marked_board(found, i + 1)
    }
}

/// The system that a mark belongs to.
fn ats_of_marker(i: usize) -> (r: &'static str)
    ensures
        r@ == marker_ats(i as int),
{
    if i == 0 || i == 1 {
        "greenhouse"
    } else if i == 2 {
        "lever"
    } else if i == 3 {
        "ashby"
    } else if i == 4 || i == 5 {
        "workable"
    } else {
        "recruitee"
    }
}

/// The names that were found.
pub open spec fn found_texts(found: Seq<Option<String>>) -> Seq<Option<Seq<char>>> {
    found.map_values(|o: Option<String>| opt_text(o))
}

/// The board that the marks of a page point to, given what each mark holds.
pub fn from_captures(found: &Vec<Option<String>>) -> (r: Result<Detected, NoMarkers>)
    ensures
        match r {
            Ok(d) => marked_board(found_texts(found@), 0) == Some(d.board()) && d.name@
                == title_of(d.slug@),
            Err(_) => marked_board(found_texts(found@), 0) is None,
        },
{
    let mut i: usize = 0;
    while i < found.len()
        invariant
            i <= found.len(),
            marked_board(found_texts(found@), 0) == marked_board(found_texts(found@), i as int),
        decreases found.len() - i,
    {
        assert(found_texts(found@)[i as int] == opt_text(found@[i as int]));
        match &found[i] {
            Some(slug) => {
                let reserved = ["apply", "www", "boards", "job-boards"];
                let skip = is_one_of(slug.as_str(), &reserved);
                assert(reserved@.map_values(|t: &'static str| t@) =~= reserved_slugs());
                if !skip {
                    return Ok(Detected::new(ats_of_marker(i), slug.as_str()));
                }
            },
            None => {},
        }
        i += 1;
    }
    Err(NoMarkers)
}

/// What each mark holds in a page.
pub open spec fn captures_in(body: Seq<char>) -> Seq<Option<Seq<char>>> {
    Seq::new(MARKERS as nat, |i: int| regex_group(marker_pattern(i), body))
}

/// Whether a name, if there is one, can be what a mark holds.
pub open spec fn is_marker_opt(o: Option<Seq<char>>, body: Seq<char>) -> bool {
    o matches Some(s) ==> is_marker_group(s, body)
}

/// Detect by scanning a page for the marks of the known systems. A detected slug
/// stands in the page and is made of letters, digits, dashes and underscores.
pub fn from_markers(body: &str) -> (r: Result<Detected, NoMarkers>)
    ensures
        match r {
            Ok(d) => marked_board(captures_in(body@), 0) == Some(d.board()) && d.name@ == title_of(
                d.slug@,
            ),
            Err(_) => marked_board(captures_in(body@), 0) is None,
        },
        r matches Ok(d) ==> is_marker_group(d.slug@, body@),
{
    let mut found: Vec<Option<String>> = Vec::new();
    let mut i: usize = 0;
    while i < MARKERS
        invariant
            i <= MARKERS,
            found_texts(found@) =~= captures_in(body@).take(i as int),
            forall|k: int|
                0 <= k < i ==> is_marker_opt(#[trigger] captures_in(body@)[k], body@),
        decreases MARKERS - i,
    {
        let ghost before = found@;
        let g = marker_group(i, body);
        found.push(g);
        assert(found_texts(found@) =~= found_texts(before).push(opt_text(g)));
        i += 1;
    }
    assert(found_texts(found@) =~= captures_in(body@));
    proof {
        lemma_marked(captures_in(body@), body@, 0);
    }
    from_captures(&found)
}

/// A marked board's slug is what one of the marks holds.
proof fn lemma_marked(found: Seq<Option<Seq<char>>>, body: Seq<char>, i: int)
    requires
        0 <= i,
        forall|k: int|
            0 <= k < found.len() ==> is_marker_opt(#[trigger] found[k], body),
    ensures
        marked_board(found, i) matches Some(b) ==> is_marker_group(b.1, body),
    decreases found.len() - i,
{
    if i < found.len() {
        lemma_marked(found, body, i + 1);
    }
}

} // verus!
