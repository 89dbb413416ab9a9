//! How an address is taken apart, and which board it belongs to.

use vstd::prelude::*;

use crate::normalize::content::is_spelled;
use crate::pattern::regex_group;
use crate::sniff::shapes::is_slug;
use crate::sniff::{
    bare, captures_in, dashed, field_value, host_of, is_filled, label_under, marked_board, on,
    path_of, query_of, reserved_slugs, segment_of, segments_of, sniffed, title_of, title_words,
    unless, value_in, without_dots,
};
use crate::sources::Source;
use crate::text::search::{begins, cut, ends, find, lemma_find};
use crate::text::words::{
    join, join_then_split, lemma_split, lemma_split_chars, lemma_split_concat, split,
};
use crate::text::{
    is_blank, is_space, lemma_trim_around, lemma_trim_end_prefix, trim, trim_end, trim_start,
};
use crate::unicode::{ascii_lower, ascii_lowered, lower_of, upper_of};

verus! {

// ---------------------------------------------------------------------------
// Taking an address apart
// ---------------------------------------------------------------------------

/// Whether a text can stand behind a host or a segment: nothing, or something that
/// starts with a slash or a question mark.
pub open spec fn is_rest(r: Seq<char>) -> bool {
    r.len() == 0 || r[0] == '/' || r[0] == '?'
}

/// Whether a text can be a host or a segment: not empty, and without slashes,
/// question marks and whitespace.
pub open spec fn is_part(s: Seq<char>) -> bool {
    &&& s.len() > 0
    &&& forall|i: int|
        0 <= i < s.len() ==> #[trigger] s[i] != '/' && s[i] != '?' && !is_space(s[i])
}

/// Whether a host is written in small or capital letters.
pub open spec fn is_written_as(host: Seq<char>, small: Seq<char>) -> bool {
    &&& host.len() == small.len()
    &&& forall|i: int| 0 <= i < small.len() ==> is_spelled(host[i], #[trigger] small[i])
}

/// Trimming the end of a text whose front ends in a letter trims what is behind.
proof fn lemma_trim_end_behind(a: Seq<char>, b: Seq<char>)
    requires
        a.len() > 0,
        !is_space(a.last()),
    ensures
        trim_end(a + b) == a + trim_end(b),
    decreases b.len(),
{
    if b.len() == 0 {
        assert(a + b =~= a);
        assert(a + trim_end(b) =~= a);
    } else {
        assert((a + b).last() == b.last());
        assert((a + b).drop_last() =~= a + b.drop_last());
        if is_space(b.last()) {
            lemma_trim_end_behind(a, b.drop_last());
        }
    }
}

/// What can stand behind a part can do so when it is trimmed.
proof fn lemma_trimmed_rest(r: Seq<char>)
    requires
        is_rest(r),
    ensures
        is_rest(trim_end(r)),
        r.len() > 0 ==> trim_end(r).len() > 0 && trim_end(r)[0] == r[0],
{
    lemma_trim_end_prefix(r);
    if r.len() > 0 {
        assert(!is_space(r[0]));
    }
}

/// The first question mark of a text behind one without it.
proof fn lemma_cut_behind(a: Seq<char>, b: Seq<char>, c: char)
    requires
        !a.contains(c),
    ensures
        cut(a + b, c) == match cut(b, c) {
            Some((p, q)) => Some((a + p, q)),
            None => None,
        },
    decreases a.len(),
{
    let s = a + b;
    lemma_find(s, c);
    lemma_find(b, c);
    match (find(s, c), find(b, c)) {
        (Some(i), Some(j)) => {
            assert(s[a.len() + j] == c);
            if i < a.len() {
                assert(a[i] == c);
                assert(a.contains(c));
            }
            assert(b[i - a.len()] == c);
            assert(i == a.len() + j) by {
                if i < a.len() + j {
                    assert(b[i - a.len()] != c);
                } else if a.len() + j < i {
                    assert(s[a.len() + j] != c);
                }
            }
            assert(s.take(i) =~= a + b.take(j));
            assert(s.skip(i + 1) =~= b.skip(j + 1));
        },
        (Some(i), None) => {
            if i < a.len() {
                assert(a.contains(a[i]));
            } else {
                assert(b.contains(b[i - a.len()]));
            }
        },
        (None, Some(j)) => {
            assert(s.contains(s[a.len() + j]));
        },
        (None, None) => {},
    }
}

/// A part holds neither slash nor question mark.
proof fn lemma_part(s: Seq<char>)
    requires
        is_part(s),
    ensures
        !s.contains('/'),
        !s.contains('?'),
        split(s, '/') == seq![s],
{
    if s.contains('/') {
        let i = choose|i: int| 0 <= i < s.len() && s[i] == '/';
        assert(s[i] != '/');
    }
    if s.contains('?') {
        let i = choose|i: int| 0 <= i < s.len() && s[i] == '?';
        assert(s[i] != '?');
    }
    assert(seq![s].drop_last() =~= Seq::<Seq<char>>::empty());
    assert(join(seq![s], seq!['/']) == s);
    join_then_split(seq![s], '/');
}

/// The path of a rest: what stands before the question mark.
spec fn path_part(r: Seq<char>) -> Seq<char> {
    match cut(r, '?') {
        Some((p, _)) => p,
        None => r,
    }
}

/// The path of a rest is empty or starts with a slash.
proof fn lemma_path_part(r: Seq<char>)
    requires
        is_rest(r),
    ensures
        path_part(r).len() == 0 || path_part(r)[0] == '/',
        r.len() > 0 && r[0] == '?' ==> cut(r, '?') == Some((Seq::<char>::empty(), r.skip(1))),
{
    lemma_find(r, '?');
    match find(r, '?') {
        Some(i) => {
            if r[0] == '?' {
                assert(i == 0) by {
                    if i > 0 {
                        assert(r[0] != '?');
                    }
                }
                assert(r.take(0) =~= Seq::<char>::empty());
            }
        },
        None => {
            if r.len() > 0 {
                assert(r.contains(r[0]));
            }
        },
    }
}

/// The fields behind a part: the part, and those of what is behind its slash.
proof fn lemma_fields_behind(part: Seq<char>, p: Seq<char>)
    requires
        is_part(part),
        p.len() == 0 || p[0] == '/',
    ensures
        split(part + p, '/').len() > 0,
        split(part + p, '/')[0] == part,
        p.len() == 0 ==> split(part + p, '/') == seq![part],
        p.len() > 0 ==> split(part + p, '/') == seq![part] + split(p.skip(1), '/'),
{
    lemma_part(part);
    if p.len() == 0 {
        assert(part + p =~= part);
    } else {
        assert(part + p =~= part + seq!['/'] + p.skip(1));
        lemma_split_concat(part, p.skip(1), '/');
    }
}

/// How an address of a host is taken apart.
proof fn lemma_host_address(host: Seq<char>, rest: Seq<char>)
    requires
        is_part(host),
        is_rest(rest),
    ensures
        ({
            let url = "https://"@ + host + rest;
            let r = trim_end(rest);
            &&& bare(url) == host + r
            &&& path_of(url) == host + path_part(r)
            &&& query_of(url) == match cut(r, '?') {
                Some((_, q)) => Some(q),
                None => None,
            }
            &&& host_of(url) == host
        }),
{
    let url = "https://"@ + host + rest;
    let r = trim_end(rest);
    let front = "https://"@ + host;
    reveal_strlit("https://");
    assert(front.last() == host[host.len() - 1]);
    lemma_trim_end_behind(front, rest);
    assert(url[0] == 'h');
    assert(trim_start(url) == url);
    let t = front + r;
    assert(trim(url) == t);
    assert(t.subrange(0, 8) =~= "https://"@);
    assert(t.skip(8) =~= host + r);
    lemma_part(host);
    lemma_cut_behind(host, r, '?');
    lemma_trimmed_rest(rest);
    lemma_path_part(r);
    lemma_fields_behind(host, path_part(r));
    lemma_first_kept(split(path_of(url), '/'));
}

/// The first field stays if it is not empty.
proof fn lemma_first_kept(fields: Seq<Seq<char>>)
    requires
        fields.len() > 0,
        fields[0].len() > 0,
    ensures
        fields.filter(is_filled()) == seq![fields[0]] + fields.drop_first().filter(is_filled()),
{
    let one = seq![fields[0]];
    assert(fields =~= one + fields.drop_first());
    Seq::filter_distributes_over_add(one, fields.drop_first(), is_filled());
    assert(one.filter(is_filled()) =~= one) by {
        reveal(Seq::filter);
        assert(one.drop_last() =~= Seq::<Seq<char>>::empty());
        assert(Seq::<Seq<char>>::empty().filter(is_filled()) =~= Seq::<Seq<char>>::empty());
    }
}

/// How an address of a segment on a host is taken apart.
proof fn lemma_segment_address(host: Seq<char>, slug: Seq<char>, rest: Seq<char>)
    requires
        is_part(host),
        is_part(slug),
        is_rest(rest),
    ensures
        ({
            let url = "https://"@ + host + seq!['/'] + slug + rest;
            &&& host_of(url) == host
            &&& segment_of(url) == Some(slug)
            &&& query_of(url) == match cut(trim_end(rest), '?') {
                Some((_, q)) => Some(q),
                None => None,
            }
        }),
{
    let url = "https://"@ + host + seq!['/'] + slug + rest;
    let tail = seq!['/'] + slug + rest;
    assert(url =~= "https://"@ + host + tail);
    lemma_host_address(host, tail);
    let r = trim_end(rest);
    let seg = seq!['/'] + slug;
    assert(seg.last() == slug[slug.len() - 1]);
    lemma_trim_end_behind(seg, rest);
    assert(seg + rest =~= tail);
    lemma_part(slug);
    assert(!seg.contains('?')) by {
        if seg.contains('?') {
            let i = choose|i: int| 0 <= i < seg.len() && seg[i] == '?';
            if i > 0 {
                assert(slug[i - 1] == '?');
                assert(slug.contains('?'));
            }
        }
    }
    lemma_cut_behind(seg, r, '?');
    lemma_trimmed_rest(rest);
    lemma_path_part(r);
    let p = path_part(r);
    assert(path_part(trim_end(tail)) == seg + p);
    lemma_fields_behind(host, seg + p);
    assert((seg + p).skip(1) =~= slug + p);
    lemma_fields_behind(slug, p);
    let fields = split(path_of(url), '/');
    assert(fields == seq![host] + split(slug + p, '/'));
    lemma_first_kept(fields);
    assert(fields.drop_first() =~= split(slug + p, '/'));
    lemma_first_kept(split(slug + p, '/'));
    assert(segments_of(url)[1] == slug);
}

/// A slug is a part.
proof fn lemma_slug(slug: Seq<char>)
    requires
        is_slug(slug),
    ensures
        is_part(slug),
{
}

/// A host in any spelling is a part, and is read in small letters.
proof fn lemma_written(host: Seq<char>, small: Seq<char>)
    requires
        is_written_as(host, small),
        small.len() > 0,
        forall|i: int|
            0 <= i < small.len() ==> 'a' <= #[trigger] small[i] <= 'z' || '0' <= small[i] <= '9'
                || small[i] == '.' || small[i] == '-',
    ensures
        is_part(host),
        lower_of(host) == small,
{
    assert forall|i: int| 0 <= i < host.len() implies #[trigger] host[i] != '/' && host[i] != '?'
        && !is_space(host[i]) && host[i] < '\u{80}' by {
        assert(is_spelled(host[i], small[i]));
    }
    assert forall|i: int| 0 <= i < host.len() implies ascii_lower(#[trigger] host[i])
        == small[i] by {
        assert(is_spelled(host[i], small[i]));
    }
    assert(ascii_lowered(host) =~= small);
}

/// Neither the host nor the segment of an address reaches over a slash or a question
/// mark.
pub proof fn parts_end_at_slashes_and_queries(url: Seq<char>)
    ensures
        !host_of(url).contains('/'),
        !host_of(url).contains('?'),
        segment_of(url) matches Some(s) ==> s.len() > 0 && !s.contains('/') && !s.contains('?'),
{
    reveal_strlit("");
    let p = path_of(url);
    lemma_find(bare(url), '?');
    assert(!p.contains('?')) by {
        if p.contains('?') {
            let i = choose|i: int| 0 <= i < p.len() && p[i] == '?';
            assert(bare(url)[i] == '?');
        }
    }
    let fields = split(p, '/');
    lemma_split(p, '/');
    assert forall|k: int| 0 <= k < segments_of(url).len() implies (#[trigger] segments_of(
        url,
    )[k]).len() > 0 && !segments_of(url)[k].contains('/') && !segments_of(url)[k].contains('?') by {
        broadcast use vstd::seq_lib::group_filter_ensures;

        let f = segments_of(url)[k];
        assert(is_filled()(f));
        assert(segments_of(url).contains(f));
        fields.lemma_filter_contains_rev(is_filled(), f);
        let j = choose|j: int| 0 <= j < fields.len() && fields[j] == f;
        if f.contains('?') {
            lemma_split_chars(p, '/', j, '?');
        }
    }
}

/// Whitespace around an address changes nothing.
pub proof fn surrounding_whitespace_does_not_matter(a: Seq<char>, url: Seq<char>, b: Seq<char>)
    requires
        is_blank(a),
        is_blank(b),
    ensures
        sniffed(a + url + b) == sniffed(url),
{
    lemma_trim_around(a, url, b);
}

/// The scheme of an address changes nothing, and may be left out.
pub proof fn any_scheme_is_sniffed_alike(url: Seq<char>)
    requires
        !begins(trim(url), "https://"@),
        !begins(trim(url), "http://"@),
    ensures
        sniffed("https://"@ + trim(url)) == sniffed(url),
        sniffed("http://"@ + trim(url)) == sniffed(url),
{
    let t = trim(url);
    crate::text::trim_is_idempotent(url);
    crate::sniff::shapes::scheme_does_not_matter(t);
}

// ---------------------------------------------------------------------------
// Boards
// ---------------------------------------------------------------------------

/// A page on Lever is a board there, whatever follows the company's name: a deeper
/// path or a query.
pub proof fn lever_addresses_are_sniffed(host: Seq<char>, slug: Seq<char>, rest: Seq<char>)
    requires
        is_written_as(host, "jobs.lever.co"@),
        is_slug(slug),
        is_rest(rest),
    ensures
        sniffed("https://"@ + host + seq!['/'] + slug + rest) == Some(("lever"@, slug)),
{
    let small = "jobs.lever.co"@;
    reveal_strlit("jobs.lever.co");
    reveal_strlit("greenhouse.io");
    lemma_written(host, small);
    lemma_slug(slug);
    lemma_segment_address(host, slug, rest);
    assert(!ends(small, "greenhouse.io"@)) by {
        assert(small.subrange(0, 13)[0] == 'j');
    }
}

/// A page on Ashby is a board there, whatever follows the company's name.
pub proof fn ashby_addresses_are_sniffed(host: Seq<char>, slug: Seq<char>, rest: Seq<char>)
    requires
        is_written_as(host, "jobs.ashbyhq.com"@) || is_written_as(host, "ashbyhq.com"@),
        is_slug(slug),
        is_rest(rest),
    ensures
        sniffed("https://"@ + host + seq!['/'] + slug + rest) == Some(("ashby"@, slug)),
{
    reveal_strlit("jobs.ashbyhq.com");
    reveal_strlit("ashbyhq.com");
    reveal_strlit("jobs.lever.co");
    reveal_strlit("greenhouse.io");
    let small = if is_written_as(host, "jobs.ashbyhq.com"@) {
        "jobs.ashbyhq.com"@
    } else {
        "ashbyhq.com"@
    };
    lemma_written(host, small);
    lemma_slug(slug);
    lemma_segment_address(host, slug, rest);
    assert(!ends(small, "greenhouse.io"@)) by {
        if ends(small, "greenhouse.io"@) {
            assert(small.subrange(small.len() - 13, small.len() as int)[12] == 'm');
        }
    }
}

/// A page on Workable is a board there, whatever follows the company's name.
pub proof fn workable_addresses_are_sniffed(host: Seq<char>, slug: Seq<char>, rest: Seq<char>)
    requires
        is_written_as(host, "apply.workable.com"@),
        is_slug(slug),
        is_rest(rest),
    ensures
        sniffed("https://"@ + host + seq!['/'] + slug + rest) == Some(("workable"@, slug)),
{
    reveal_strlit("apply.workable.com");
    reveal_strlit("jobs.ashbyhq.com");
    reveal_strlit("ashbyhq.com");
    reveal_strlit("jobs.lever.co");
    reveal_strlit("greenhouse.io");
    let small = "apply.workable.com"@;
    lemma_written(host, small);
    lemma_slug(slug);
    lemma_segment_address(host, slug, rest);
    assert(!ends(small, "greenhouse.io"@)) by {
        assert(small.subrange(5, 18)[12] == 'm');
    }
}

/// A page on Greenhouse is a board there, whatever follows the company's name.
pub proof fn greenhouse_addresses_are_sniffed(host: Seq<char>, slug: Seq<char>, rest: Seq<char>)
    requires
        is_written_as(host, "boards.greenhouse.io"@) || is_written_as(
            host,
            "job-boards.greenhouse.io"@,
        ),
        is_slug(slug),
        slug != "embed"@,
        slug != "job_board"@,
        is_rest(rest),
    ensures
        sniffed("https://"@ + host + seq!['/'] + slug + rest) == Some(("greenhouse"@, slug)),
{
    reveal_strlit("boards.greenhouse.io");
    reveal_strlit("job-boards.greenhouse.io");
    reveal_strlit("greenhouse.io");
    let small = if is_written_as(host, "boards.greenhouse.io"@) {
        "boards.greenhouse.io"@
    } else {
        "job-boards.greenhouse.io"@
    };
    lemma_written(host, small);
    lemma_slug(slug);
    lemma_segment_address(host, slug, rest);
    assert(small.subrange(small.len() - 13, small.len() as int) =~= "greenhouse.io"@);
}

/// How the address of an embedded board is taken apart.
proof fn lemma_embed_address(host: Seq<char>, query: Seq<char>)
    requires
        is_part(host),
    ensures
        ({
            let url = "https://"@ + host + "/embed/job_board?"@ + query;
            &&& host_of(url) == host
            &&& segment_of(url) == Some("embed"@)
            &&& query_of(url) == Some(trim_end(seq!['?'] + query).skip(1))
        }),
{
    reveal_strlit("/embed/job_board?");
    reveal_strlit("embed");
    let url = "https://"@ + host + "/embed/job_board?"@ + query;
    let way = seq!['/', 'j', 'o', 'b', '_', 'b', 'o', 'a', 'r', 'd'];
    let asked = seq!['?'] + query;
    let rest = way + asked;
    assert("/embed/job_board?"@ =~= seq!['/'] + "embed"@ + way + seq!['?']);
    assert(url =~= "https://"@ + host + seq!['/'] + "embed"@ + rest);
    lemma_segment_address(host, "embed"@, rest);
    lemma_trim_end_behind(way, asked);
    lemma_trimmed_rest(asked);
    assert(!way.contains('?'));
    lemma_cut_behind(way, trim_end(asked), '?');
    lemma_path_part(trim_end(asked));
}

/// An embedded Greenhouse board is that of the company that the query names, wherever
/// in the query it does.
pub proof fn embedded_boards_are_sniffed(
    host: Seq<char>,
    before: Seq<char>,
    slug: Seq<char>,
    after: Seq<char>,
)
    requires
        is_written_as(host, "boards.greenhouse.io"@) || is_written_as(
            host,
            "job-boards.greenhouse.io"@,
        ),
        is_slug(slug),
        before.len() == 0 || (before.last() == '&' && value_in(Some(before.drop_last()), "for"@)
            is None),
        after.len() == 0 || after[0] == '&',
    ensures
        sniffed(
            "https://"@ + host + "/embed/job_board?"@ + (before + "for="@ + slug + after),
        ) == Some(("greenhouse"@, slug)),
{
    let query = before + "for="@ + slug + after;
    let small = if is_written_as(host, "boards.greenhouse.io"@) {
        "boards.greenhouse.io"@
    } else {
        "job-boards.greenhouse.io"@
    };
    assert(ends(small, "greenhouse.io"@) && is_part(host) && lower_of(host) == small) by {
        reveal_strlit("boards.greenhouse.io");
        reveal_strlit("job-boards.greenhouse.io");
        reveal_strlit("greenhouse.io");
        lemma_written(host, small);
        assert(small.subrange(small.len() - 13, small.len() as int) =~= "greenhouse.io"@);
    }
    lemma_embed_address(host, query);
    let front = seq!['?'] + before + "for="@ + slug;
    assert(front.last() == slug[slug.len() - 1]);
    assert(seq!['?'] + query =~= front + after);
    lemma_trim_end_behind(front, after);
    let tail = trim_end(after);
    lemma_trim_end_prefix(after);
    assert(tail.len() > 0 ==> tail[0] == '&');
    assert((front + tail).skip(1) =~= before + "for="@ + slug + tail);
    lemma_for_value(before, slug, tail);
}

/// The value of the key `for` in a query.
proof fn lemma_for_value(before: Seq<char>, slug: Seq<char>, tail: Seq<char>)
    requires
        is_slug(slug),
        before.len() == 0 || (before.last() == '&' && value_in(Some(before.drop_last()), "for"@)
            is None),
        tail.len() == 0 || tail[0] == '&',
    ensures
        value_in(Some(before + "for="@ + slug + tail), "for"@) == Some(slug),
{
    reveal_strlit("for=");
    reveal_strlit("for");
    let f = "for="@ + slug;
    let key = "for"@;
    assert(f =~= key + seq!['='] + slug);
    assert(!slug.contains('&')) by {
        if slug.contains('&') {
            let i = choose|i: int| 0 <= i < slug.len() && slug[i] == '&';
            assert(crate::unicode::is_ascii_alnum(slug[i]) || slug[i] == '-' || slug[i] == '_');
        }
    }
    keys_have_their_values(key, slug);
    let one = f + tail;
    if tail.len() == 0 {
        assert(one =~= f);
    } else {
        assert(one =~= f + seq!['&'] + tail.skip(1));
        the_first_field_with_a_key_counts(f, tail.skip(1), key);
    }
    if before.len() == 0 {
        assert(before + "for="@ + slug + tail =~= one);
    } else {
        assert(before + "for="@ + slug + tail =~= before.drop_last() + seq!['&'] + one);
        the_first_field_with_a_key_counts(before.drop_last(), one, key);
    }
}

/// A field of a query gives its key its value.
pub proof fn keys_have_their_values(key: Seq<char>, value: Seq<char>)
    requires
        !key.contains('='),
        !key.contains('&'),
        !value.contains('&'),
    ensures
        value_in(Some(key + seq!['='] + value), key) == Some(value),
{
    let f = key + seq!['='] + value;
    lemma_one_field(f, key, value);
}

/// Of two queries in one, the first that has the key counts.
pub proof fn the_first_field_with_a_key_counts(a: Seq<char>, b: Seq<char>, key: Seq<char>)
    ensures
        value_in(Some(a + seq!['&'] + b), key) == match value_in(Some(a), key) {
            Some(v) => Some(v),
            None => value_in(Some(b), key),
        },
{
    lemma_split_concat(a, b, '&');
    lemma_field_concat(split(a, '&'), split(b, '&'), key);
}

proof fn lemma_field_concat(a: Seq<Seq<char>>, b: Seq<Seq<char>>, key: Seq<char>)
    ensures
        field_value(a + b, key) == match field_value(a, key) {
            Some(v) => Some(v),
            None => field_value(b, key),
        },
    decreases a.len(),
{
    if a.len() == 0 {
        assert(a + b =~= b);
    } else {
        assert((a + b)[0] == a[0]);
        assert((a + b).drop_first() =~= a.drop_first() + b);
        lemma_field_concat(a.drop_first(), b, key);
    }
}

/// The single label in front of a root domain.
proof fn lemma_label(label: Seq<char>, root: Seq<char>)
    requires
        label.len() > 0,
        !label.contains('.'),
    ensures
        label_under(label + seq!['.'] + root, root) == Some(label),
{
    let host = label + seq!['.'] + root;
    let n = host.len() as int;
    assert(host.subrange(n - root.len(), n) =~= root);
    let front = host.take(n - root.len());
    assert(front.drop_last() =~= label);
    assert(front.last() == '.');
    assert(without_dots(label) == label) by {
        if label.last() == '.' {
            assert(label.contains(label[label.len() - 1]));
        }
    }
}

/// A company's own address on Workable or Recruitee is its board there, whatever
/// follows it. The slug is the label in small letters.
pub proof fn own_addresses_are_sniffed(host: Seq<char>, slug: Seq<char>, rest: Seq<char>)
    requires
        slug.len() > 0,
        forall|i: int|
            0 <= i < slug.len() ==> 'a' <= #[trigger] slug[i] <= 'z' || '0' <= slug[i] <= '9'
                || slug[i] == '-',
        slug != "www"@,
        slug != "apply"@,
        is_rest(rest),
    ensures
        is_written_as(host, slug + ".workable.com"@) ==> sniffed("https://"@ + host + rest) == Some(
            ("workable"@, slug),
        ),
        is_written_as(host, slug + ".recruitee.com"@) ==> sniffed("https://"@ + host + rest) == Some(
            ("recruitee"@, slug),
        ),
{
    reveal_strlit(".workable.com");
    reveal_strlit(".recruitee.com");
    reveal_strlit("workable.com");
    reveal_strlit("recruitee.com");
    reveal_strlit("greenhouse.io");
    reveal_strlit("jobs.lever.co");
    reveal_strlit("jobs.ashbyhq.com");
    reveal_strlit("ashbyhq.com");
    reveal_strlit("apply.workable.com");
    reveal_strlit("apply");
    reveal_strlit("www");
    assert(!slug.contains('.')) by {
        if slug.contains('.') {
            let i = choose|i: int| 0 <= i < slug.len() && slug[i] == '.';
            assert('a' <= slug[i] <= 'z' || '0' <= slug[i] <= '9' || slug[i] == '-');
        }
    }
    if is_written_as(host, slug + ".workable.com"@) {
        let small = slug + ".workable.com"@;
        lemma_labelled(slug, "workable.com"@);
        assert(small =~= slug + seq!['.'] + "workable.com"@);
        lemma_written(host, small);
        lemma_host_address(host, rest);
        lemma_label(slug, "workable.com"@);
        let n = small.len() as int;
        assert(small[n - 1] == 'm');
        assert(!ends(small, "greenhouse.io"@)) by {
            if ends(small, "greenhouse.io"@) {
                assert(small.subrange(n - 13, n)[12] == 'o');
            }
        }
        assert(small[n - 6] == 'l');
        assert(small != "jobs.lever.co"@);
        assert(small != "jobs.ashbyhq.com"@) by {
            if small == "jobs.ashbyhq.com"@ {
                assert(small[n - 6] == 'h');
            }
        }
        assert(small != "ashbyhq.com"@);
        assert(small != "apply.workable.com"@) by {
            if small == "apply.workable.com"@ {
                assert(small.take(5) =~= "apply"@);
                assert(n == 18);
                assert(small.take(5) =~= slug);
            }
        }
        let excluded = seq!["apply"@, "www"@];
        assert(!excluded.contains(slug));
    }
    if is_written_as(host, slug + ".recruitee.com"@) {
        let small = slug + ".recruitee.com"@;
        lemma_labelled(slug, "recruitee.com"@);
        assert(small =~= slug + seq!['.'] + "recruitee.com"@);
        lemma_written(host, small);
        lemma_host_address(host, rest);
        lemma_label(slug, "recruitee.com"@);
        let n = small.len() as int;
        assert(small[n - 1] == 'm');
        assert(small[n - 6] == 'e');
        assert(!ends(small, "greenhouse.io"@)) by {
            if ends(small, "greenhouse.io"@) {
                assert(small.subrange(n - 13, n)[12] == 'o');
            }
        }
        assert(!ends(small, "workable.com"@)) by {
            if ends(small, "workable.com"@) {
                assert(small.subrange(n - 12, n)[6] == 'l');
            }
        }
        assert(small != "jobs.lever.co"@);
        assert(small[n - 13] == 'r');
        assert(small != "jobs.ashbyhq.com"@) by {
            if small == "jobs.ashbyhq.com"@ {
                assert(small[n - 5] == 'q');
                assert(small[n - 5] == 'e');
            }
        }
        assert(small != "ashbyhq.com"@);
        assert(small != "apply.workable.com"@) by {
            if small == "apply.workable.com"@ {
                assert(small[n - 6] == 'l');
            }
        }
        let excluded = seq!["www"@];
        assert(!excluded.contains(slug));
    }
}

/// A label in front of a root domain is a host in small letters.
proof fn lemma_labelled(slug: Seq<char>, root: Seq<char>)
    requires
        root == "workable.com"@ || root == "recruitee.com"@,
        forall|i: int|
            0 <= i < slug.len() ==> 'a' <= #[trigger] slug[i] <= 'z' || '0' <= slug[i] <= '9'
                || slug[i] == '-',
    ensures
        ({
            let small = slug + seq!['.'] + root;
            forall|i: int|
                0 <= i < small.len() ==> 'a' <= #[trigger] small[i] <= 'z' || '0' <= small[i] <= '9'
                    || small[i] == '.' || small[i] == '-'
        }),
{
    reveal_strlit("workable.com");
    reveal_strlit("recruitee.com");
    let small = slug + seq!['.'] + root;
    assert forall|i: int| 0 <= i < small.len() implies 'a' <= #[trigger] small[i] <= 'z' || '0'
        <= small[i] <= '9' || small[i] == '.' || small[i] == '-' by {
        if i < slug.len() {
            assert(small[i] == slug[i]);
        } else if i > slug.len() {
            assert(small[i] == root[i - slug.len() - 1]);
        }
    }
}

/// An address on any other host is no known board.
pub proof fn other_hosts_are_not_sniffed(host: Seq<char>, small: Seq<char>, rest: Seq<char>)
    requires
        is_part(host),
        small == lower_of(host),
        is_rest(rest),
        !ends(small, "greenhouse.io"@),
        !ends(small, "workable.com"@),
        !ends(small, "recruitee.com"@),
        small != "jobs.lever.co"@,
        small != "jobs.ashbyhq.com"@,
        small != "ashbyhq.com"@,
    ensures
        sniffed("https://"@ + host + rest) is None,
{
    reveal_strlit("apply.workable.com");
    reveal_strlit("workable.com");
    lemma_host_address(host, rest);
    assert("apply.workable.com"@.subrange(6, 18) =~= "workable.com"@);
}

/// Whatever board is detected, of an address or of a page, there is a source that
/// fetches it.
pub proof fn detected_boards_can_be_fetched(url: Seq<char>, body: Seq<char>)
    ensures
        sniffed(url) matches Some(b) ==> exists|s: Source| #[trigger] s.name() == b.0,
        marked_board(captures_in(body), 0) matches Some(b) ==> exists|s: Source| #[trigger]
            s.name() == b.0,
{
    assert(Source::Greenhouse.name() == "greenhouse"@);
    assert(Source::Lever.name() == "lever"@);
    assert(Source::Ashby.name() == "ashby"@);
    assert(Source::Workable.name() == "workable"@);
    assert(Source::Recruitee.name() == "recruitee"@);
    lemma_marked_ats(captures_in(body), 0);
}

proof fn lemma_marked_ats(found: Seq<Option<Seq<char>>>, i: int)
    ensures
        marked_board(found, i) matches Some(b) ==> b.0 == "greenhouse"@ || b.0 == "lever"@ || b.0
            == "ashby"@ || b.0 == "workable"@ || b.0 == "recruitee"@,
    decreases found.len() - i,
{
    if 0 <= i < found.len() {
        lemma_marked_ats(found, i + 1);
    }
}

// ---------------------------------------------------------------------------
// Marks in a page
// ---------------------------------------------------------------------------

/// Whether a name in a page is a company's: none of the names that the systems use
/// themselves.
pub open spec fn is_company_name(o: Option<Seq<char>>) -> bool {
    o matches Some(s) && s != "apply"@ && s != "www"@ && s != "boards"@ && s != "job-boards"@
}

/// The system of the first mark in a page that names a company is the one detected, and
/// what the mark holds is the slug. The marks are looked for from the most specific one
/// on.
pub proof fn the_first_mark_counts(body: Seq<char>)
    ensures
        ({
            let a = regex_group(r"greenhouse\.io/embed/job_board\?for=([a-zA-Z0-9_-]+)"@, body);
            let b = regex_group(r"(?:job-boards|boards)\.greenhouse\.io/([a-zA-Z0-9_-]+)"@, body);
            let c = regex_group(r"jobs\.lever\.co/([a-zA-Z0-9_-]+)"@, body);
            let d = regex_group(
                r"(?:jobs\.ashbyhq\.com|api\.ashbyhq\.com/posting-api/job-board)/([a-zA-Z0-9_-]+)"@,
                body,
            );
            let e = regex_group(r"apply\.workable\.com/([a-zA-Z0-9_-]+)"@, body);
            let f = regex_group(r"([a-zA-Z0-9-]+)\.workable\.com"@, body);
            let g = regex_group(r"([a-zA-Z0-9-]+)\.recruitee\.com"@, body);
            marked_board(captures_in(body), 0) == if is_company_name(a) {
                Some(("greenhouse"@, a->Some_0))
            } else if is_company_name(b) {
                Some(("greenhouse"@, b->Some_0))
            } else if is_company_name(c) {
                Some(("lever"@, c->Some_0))
            } else if is_company_name(d) {
                Some(("ashby"@, d->Some_0))
            } else if is_company_name(e) {
                Some(("workable"@, e->Some_0))
            } else if is_company_name(f) {
                Some(("workable"@, f->Some_0))
            } else if is_company_name(g) {
                Some(("recruitee"@, g->Some_0))
            } else {
                None
            }
        }),
{
    reveal_with_fuel(marked_board, 9);
    let found = captures_in(body);
    let r = reserved_slugs();
    assert forall|o: Option<Seq<char>>| #[trigger] is_company_name(o) <==> unless(o, r) is Some by {
        match o {
            Some(s) => {
                assert(r[0] == "apply"@ && r[1] == "www"@ && r[2] == "boards"@ && r[3]
                    == "job-boards"@);
                if r.contains(s) {
                    let i = choose|i: int| 0 <= i < r.len() && r[i] == s;
                    assert(i == 0 || i == 1 || i == 2 || i == 3);
                }
            },
            None => {},
        }
    }
    assert(found.len() == 7);
    assert(is_company_name(found[0]) <==> unless(found[0], r) is Some);
    assert(is_company_name(found[1]) <==> unless(found[1], r) is Some);
    assert(is_company_name(found[2]) <==> unless(found[2], r) is Some);
    assert(is_company_name(found[3]) <==> unless(found[3], r) is Some);
    assert(is_company_name(found[4]) <==> unless(found[4], r) is Some);
    assert(is_company_name(found[5]) <==> unless(found[5], r) is Some);
    assert(is_company_name(found[6]) <==> unless(found[6], r) is Some);
}

// ---------------------------------------------------------------------------
// Display names
// ---------------------------------------------------------------------------

/// Whether a text holds neither dash nor underscore.
pub open spec fn is_one_word(w: Seq<char>) -> bool {
    w.len() > 0 && !w.contains('-') && !w.contains('_')
}

/// A word of a slug is shown with its first letter in upper case and the rest as it is.
pub proof fn words_of_a_name_are_capitalized(w: Seq<char>)
    requires
        is_one_word(w),
    ensures
        title_of(w) == upper_of(w[0]) + w.skip(1),
{
    assert(dashed(w) =~= w) by {
        assert forall|i: int| 0 <= i < w.len() implies w[i] != '_' by {
            assert(w.contains(w[i]));
        }
    }
    let one = seq![w];
    assert(one.drop_last() =~= Seq::<Seq<char>>::empty());
    assert(join(one, seq!['-']) == w);
    join_then_split(one, '-');
    assert(one.filter(is_filled()) =~= one) by {
        reveal(Seq::filter);
        assert(Seq::<Seq<char>>::empty().filter(is_filled()) =~= Seq::<Seq<char>>::empty());
    }
    assert(title_words(w) =~= seq![upper_of(w[0]) + w.skip(1)]);
    assert(title_words(w).len() == 1);
}

/// The words of a slug, between dashes or underscores, are shown with a space between
/// them.
pub proof fn names_are_put_together_with_spaces(a: Seq<char>, sep: char, b: Seq<char>)
    requires
        sep == '-' || sep == '_',
    ensures
        title_words(a).len() > 0 && title_words(b).len() > 0 ==> title_of(a + seq![sep] + b)
            == title_of(a) + seq![' '] + title_of(b),
        title_words(a).len() == 0 ==> title_of(a + seq![sep] + b) == title_of(b),
        title_words(b).len() == 0 ==> title_of(a + seq![sep] + b) == title_of(a),
{
    let s = a + seq![sep] + b;
    assert(dashed(s) =~= dashed(a) + seq!['-'] + dashed(b));
    lemma_split_concat(dashed(a), dashed(b), '-');
    let x = split(dashed(a), '-');
    let y = split(dashed(b), '-');
    Seq::filter_distributes_over_add(x, y, is_filled());
    assert(title_words(s) =~= title_words(a) + title_words(b));
    if title_words(a).len() == 0 {
        assert(title_words(s) =~= title_words(b));
    }
    if title_words(b).len() == 0 {
        assert(title_words(s) =~= title_words(a));
    }
    if title_words(a).len() > 0 && title_words(b).len() > 0 {
        crate::normalize::content::lemma_join_concat(title_words(a), title_words(b), seq![' ']);
    }
}

// ---------------------------------------------------------------------------
// Labels, fields and marks
// ---------------------------------------------------------------------------

/// Whether a text is made of dots.
pub open spec fn is_dots(d: Seq<char>) -> bool {
    forall|i: int| 0 <= i < d.len() ==> #[trigger] d[i] == '.'
}

/// A text is what remains of it without the dots at its end, and those dots.
proof fn lemma_without_dots(s: Seq<char>)
    ensures
        without_dots(s).len() <= s.len(),
        s.take(without_dots(s).len() as int) == without_dots(s),
        is_dots(s.skip(without_dots(s).len() as int)),
        without_dots(s).len() > 0 ==> without_dots(s).last() != '.',
    decreases s.len(),
{
    if s.len() > 0 && s.last() == '.' {
        let d = s.drop_last();
        lemma_without_dots(d);
        let n = without_dots(s).len() as int;
        assert(s.take(n) =~= d.take(n));
        assert forall|i: int| 0 <= i < s.skip(n).len() implies #[trigger] s.skip(n)[i] == '.' by {
            if n + i < d.len() {
                assert(d.skip(n)[i] == '.');
            }
        }
    } else {
        assert(s.take(s.len() as int) =~= s);
        assert(s.skip(s.len() as int) =~= Seq::<char>::empty());
    }
}

/// A label and dots behind it, without the dots.
proof fn lemma_add_dots(l: Seq<char>, d: Seq<char>)
    requires
        is_dots(d),
        !l.contains('.'),
    ensures
        without_dots(l + d) == l,
    decreases d.len(),
{
    if d.len() == 0 {
        assert(l + d =~= l);
        if l.len() > 0 {
            assert(l.contains(l[l.len() - 1]));
        }
    } else {
        assert((l + d).drop_last() =~= l + d.drop_last());
        assert((l + d).last() == d[d.len() - 1]);
        assert forall|i: int| 0 <= i < d.drop_last().len() implies #[trigger] d.drop_last()[i]
            == '.' by {
            assert(d[i] == '.');
        }
        lemma_add_dots(l, d.drop_last());
    }
}

/// A host has a label under a root domain if and only if it is the label, dots and the
/// root; a label is not empty and holds no dot itself.
pub proof fn labels_stand_in_front_of_the_root(
    host: Seq<char>,
    root: Seq<char>,
    label: Seq<char>,
    dots: Seq<char>,
)
    requires
        is_dots(dots),
    ensures
        host == label + dots + root && label.len() > 0 && !label.contains('.') ==> label_under(
            host,
            root,
        ) == Some(label),
        label_under(host, root) matches Some(l) ==> l.len() > 0 && !l.contains('.') && exists|
            d: Seq<char>,
        | #[trigger]
            is_dots(d) && host == l + d + root,
{
    if host == label + dots + root && label.len() > 0 && !label.contains('.') {
        let n = host.len() as int;
        assert(host.subrange(n - root.len(), n) =~= root);
        assert(host.take(n - root.len()) =~= label + dots);
        lemma_add_dots(label, dots);
    }
    if label_under(host, root) is Some {
        let n = host.len() - root.len();
        let s = host.take(n);
        lemma_without_dots(s);
        let l = without_dots(s);
        let d = s.skip(l.len() as int);
        assert(host.subrange(n, host.len() as int) == root);
        assert(host =~= l + d + root);
    }
}

/// Whether a text is a label of a host in small letters.
pub open spec fn is_label(s: Seq<char>) -> bool {
    &&& s.len() > 0
    &&& forall|i: int|
        0 <= i < s.len() ==> 'a' <= #[trigger] s[i] <= 'z' || '0' <= s[i] <= '9' || s[i] == '-'
}

/// An address without a segment: nothing, a slash or a query behind the host.
pub open spec fn is_bare_rest(r: Seq<char>) -> bool {
    r.len() == 0 || r == seq!['/'] || r[0] == '?'
}

/// An address without a segment has none.
proof fn lemma_no_segment(host: Seq<char>, rest: Seq<char>)
    requires
        is_part(host),
        is_bare_rest(rest),
    ensures
        host_of("https://"@ + host + rest) == host,
        segment_of("https://"@ + host + rest) is None,
{
    let url = "https://"@ + host + rest;
    lemma_host_address(host, rest);
    lemma_trimmed_rest(rest);
    let r = trim_end(rest);
    lemma_path_part(r);
    let p = path_part(r);
    lemma_fields_behind(host, p);
    let fields = split(path_of(url), '/');
    lemma_first_kept(fields);
    let none = Seq::<Seq<char>>::empty();
    if rest == seq!['/'] {
        assert(!is_space('/'));
        assert(r =~= rest);
        lemma_find(r, '?');
        assert(!r.contains('?'));
        assert(p == rest);
        assert(p.skip(1) =~= Seq::<char>::empty());
        let e = Seq::<char>::empty();
        assert(join(seq![e], seq!['/']) == e) by {
            assert(seq![e].drop_last() =~= none);
        }
        join_then_split(seq![e], '/');
        assert(fields.drop_first() =~= seq![e]);
        assert(seq![e].filter(is_filled()) =~= none) by {
            reveal(Seq::filter);
            assert(seq![e].drop_last() =~= none);
            assert(none.filter(is_filled()) =~= none);
        }
    } else {
        if rest.len() == 0 {
            assert(r =~= rest);
            lemma_find(r, '?');
        } else {
            lemma_trim_end_behind(seq!['?'], rest.skip(1));
            assert(seq!['?'] + rest.skip(1) =~= rest);
            assert(r[0] == '?');
        }
        assert(p.len() == 0);
        assert(fields.drop_first() =~= none);
        assert(none.filter(is_filled()) =~= none) by {
            reveal(Seq::filter);
        }
    }
    assert(segments_of(url) =~= seq![host]);
}

/// A company's own address on Greenhouse is its board there; the names of Greenhouse's
/// own hosts are no companies.
pub proof fn greenhouse_labels_are_sniffed(host: Seq<char>, label: Seq<char>, rest: Seq<char>)
    requires
        is_label(label),
        is_written_as(host, label + ".greenhouse.io"@),
        is_bare_rest(rest),
    ensures
        label != "boards"@ && label != "job-boards"@ && label != "boards-api"@ ==> sniffed(
            "https://"@ + host + rest,
        ) == Some(("greenhouse"@, label)),
        label == "boards"@ || label == "job-boards"@ || label == "boards-api"@ ==> sniffed(
            "https://"@ + host + rest,
        ) is None,
{
    reveal_strlit(".greenhouse.io");
    reveal_strlit("greenhouse.io");
    let small = label + ".greenhouse.io"@;
    assert(small =~= label + seq!['.'] + "greenhouse.io"@);
    lemma_label_chars(label, ".greenhouse.io"@);
    lemma_written(host, small);
    lemma_no_segment(host, rest);
    lemma_no_dot(label);
    lemma_label(label, "greenhouse.io"@);
    let n = small.len() as int;
    assert(small.subrange(n - 13, n) =~= "greenhouse.io"@);
    let excluded = seq!["boards"@, "job-boards"@, "boards-api"@];
    assert(excluded[0] == "boards"@ && excluded[1] == "job-boards"@ && excluded[2]
        == "boards-api"@);
}

/// A label holds no dot.
proof fn lemma_no_dot(label: Seq<char>)
    requires
        is_label(label),
    ensures
        !label.contains('.'),
{
    if label.contains('.') {
        let i = choose|i: int| 0 <= i < label.len() && label[i] == '.';
        assert('a' <= label[i] <= 'z' || '0' <= label[i] <= '9' || label[i] == '-');
    }
}

/// A label in front of letters and dots is a host in small letters.
proof fn lemma_label_chars(label: Seq<char>, end: Seq<char>)
    requires
        is_label(label),
        forall|i: int| 0 <= i < end.len() ==> 'a' <= #[trigger] end[i] <= 'z' || end[i] == '.',
    ensures
        ({
            let small = label + end;
            forall|i: int|
                0 <= i < small.len() ==> 'a' <= #[trigger] small[i] <= 'z' || '0' <= small[i] <= '9'
                    || small[i] == '.' || small[i] == '-'
        }),
{
    let small = label + end;
    assert forall|i: int| 0 <= i < small.len() implies 'a' <= #[trigger] small[i] <= 'z' || '0'
        <= small[i] <= '9' || small[i] == '.' || small[i] == '-' by {
        if i < label.len() {
            assert(small[i] == label[i]);
        } else {
            assert(small[i] == end[i - label.len()]);
        }
    }
}

/// The `www` hosts of Workable and Recruitee are no companies' boards, whatever follows.
pub proof fn www_hosts_are_not_sniffed(host: Seq<char>, rest: Seq<char>)
    requires
        is_written_as(host, "www.workable.com"@) || is_written_as(host, "www.recruitee.com"@),
        is_rest(rest),
    ensures
        sniffed("https://"@ + host + rest) is None,
{
    reveal_strlit("www.workable.com");
    reveal_strlit("www.recruitee.com");
    reveal_strlit("workable.com");
    reveal_strlit("recruitee.com");
    reveal_strlit("greenhouse.io");
    reveal_strlit("jobs.lever.co");
    reveal_strlit("jobs.ashbyhq.com");
    reveal_strlit("ashbyhq.com");
    reveal_strlit("apply.workable.com");
    reveal_strlit("www");
    let small = if is_written_as(host, "www.workable.com"@) {
        "www.workable.com"@
    } else {
        "www.recruitee.com"@
    };
    lemma_written(host, small);
    lemma_host_address(host, rest);
    let n = small.len() as int;
    assert(!ends(small, "greenhouse.io"@)) by {
        if ends(small, "greenhouse.io"@) {
            assert(small.subrange(n - 13, n)[12] == 'o');
        }
    }
    assert(small[0] == 'w');
    let www = "www"@;
    assert(!www.contains('.')) by {
        if www.contains('.') {
            let i = choose|i: int| 0 <= i < www.len() && www[i] == '.';
            assert(www[i] == 'w');
        }
    }
    let two = seq!["apply"@, "www"@];
    assert(two[1] == www);
    let one = seq!["www"@];
    assert(one[0] == www);
    if small == "www.workable.com"@ {
        assert(small =~= www + seq!['.'] + "workable.com"@);
        lemma_label(www, "workable.com"@);
        assert(!ends(small, "recruitee.com"@)) by {
            if ends(small, "recruitee.com"@) {
                assert(small.subrange(n - 13, n)[7] == 'e');
                assert(small[10] == 'l');
                assert(small[n - 13 + 7] == 'l');
            }
        }
    } else {
        assert(small =~= www + seq!['.'] + "recruitee.com"@);
        lemma_label(www, "recruitee.com"@);
        assert(!ends(small, "workable.com"@)) by {
            if ends(small, "workable.com"@) {
                assert(small.subrange(n - 12, n)[6] == 'l');
                assert(small[n - 6] == 'e');
            }
        }
    }
}

/// A query without the key gives it no value: no query, a field of another key, a field
/// without a value.
pub proof fn other_keys_give_no_value(key: Seq<char>, other: Seq<char>, value: Seq<char>)
    requires
        other != key,
        !other.contains('='),
        !other.contains('&'),
        !value.contains('&'),
    ensures
        value_in(None, key) is None,
        value_in(Some(other + seq!['='] + value), key) is None,
        value_in(Some(other), key) is None,
{
    let f = other + seq!['='] + value;
    lemma_one_field(f, other, value);
    assert(field_value(Seq::<Seq<char>>::empty(), key) is None);
    assert(split(f, '&').drop_first() =~= Seq::<Seq<char>>::empty());
    let one = seq![other];
    assert(one.drop_last() =~= Seq::<Seq<char>>::empty());
    assert(join(one, seq!['&']) == other);
    join_then_split(one, '&');
    lemma_find(other, '=');
    assert(one.drop_first() =~= Seq::<Seq<char>>::empty());
}

/// A field of a key and a value is one field, and is cut into the two.
proof fn lemma_one_field(f: Seq<char>, key: Seq<char>, value: Seq<char>)
    requires
        f == key + seq!['='] + value,
        !key.contains('='),
        !key.contains('&'),
        !value.contains('&'),
    ensures
        split(f, '&') == seq![f],
        cut(f, '=') == Some((key, value)),
{
    let one = seq![f];
    assert(!f.contains('&')) by {
        if f.contains('&') {
            let i = choose|i: int| 0 <= i < f.len() && f[i] == '&';
            if i < key.len() {
                assert(key[i] == '&');
            } else if i > key.len() {
                assert(value[i - key.len() - 1] == '&');
            }
        }
    }
    assert(one.drop_last() =~= Seq::<Seq<char>>::empty());
    assert(join(one, seq!['&']) == f);
    join_then_split(one, '&');
    assert(f =~= key + (seq!['='] + value));
    lemma_cut_behind(key, seq!['='] + value, '=');
    let r = seq!['='] + value;
    lemma_find(r, '=');
    assert(r[0] == '=');
    assert(find(r, '=') == Some(0int));
    assert(r.take(0) =~= Seq::<char>::empty());
    assert(r.skip(1) =~= value);
    assert(key + Seq::<char>::empty() =~= key);
}

/// Of what the marks of a page hold, the first company's name is the slug, and the place
/// of its mark says which system it is on; without one nothing is detected.
pub proof fn the_first_found_name_counts(found: Seq<Option<Seq<char>>>, i: int)
    requires
        0 <= i <= found.len(),
        forall|j: int| 0 <= j < i ==> !is_company_name(#[trigger] found[j]),
    ensures
        i == found.len() ==> marked_board(found, 0) is None,
        i < found.len() && is_company_name(found[i]) ==> marked_board(found, 0) == Some(
            (
                if i < 2 {
                    "greenhouse"@
                } else if i < 3 {
                    "lever"@
                } else if i < 4 {
                    "ashby"@
                } else if i < 6 {
                    "workable"@
                } else {
                    "recruitee"@
                },
                found[i]->Some_0,
            ),
        ),
{
    lemma_passed_over(found, 0, i);
    if i < found.len() {
        lemma_company_name(found[i]);
    }
}

/// A company's name is none of the reserved ones.
proof fn lemma_company_name(o: Option<Seq<char>>)
    ensures
        is_company_name(o) <==> unless(o, reserved_slugs()) is Some,
{
    let r = reserved_slugs();
    assert(r[0] == "apply"@ && r[1] == "www"@ && r[2] == "boards"@ && r[3] == "job-boards"@);
    if o is Some && r.contains(o->Some_0) {
        let i = choose|i: int| 0 <= i < r.len() && r[i] == o->Some_0;
        assert(i == 0 || i == 1 || i == 2 || i == 3);
    }
}

/// Marks that hold no company's name are passed over.
proof fn lemma_passed_over(found: Seq<Option<Seq<char>>>, k: int, i: int)
    requires
        0 <= k <= i <= found.len(),
        forall|j: int| 0 <= j < i ==> !is_company_name(#[trigger] found[j]),
    ensures
        marked_board(found, k) == marked_board(found, i),
    decreases i - k,
{
    if k < i {
        assert(!is_company_name(found[k]));
        lemma_company_name(found[k]);
        lemma_passed_over(found, k + 1, i);
    }
}

} // verus!
