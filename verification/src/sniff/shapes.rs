//! What is detected of the addresses that boards hand out.

use vstd::prelude::*;

use crate::sniff::{
    bare, host_of, is_filled, label_under, query_of, segment_of, sniffed, without_dots,
};
use crate::text::search::{begins, cut, ends, find, lemma_find};
use crate::text::words::{join, join_then_split};
use crate::text::{lemma_trim_edges, lemma_trim_fixed, trim};
use crate::unicode::{ascii_lowered, is_ascii_alnum, lower_of};

verus! {

/// Whether a name is made of ASCII letters, digits, dashes and underscores.
pub open spec fn is_slug(s: Seq<char>) -> bool {
    &&& s.len() > 0
    &&& forall|i: int|
        0 <= i < s.len() ==> is_ascii_alnum(#[trigger] s[i]) || s[i] == '-' || s[i] == '_'
}

/// Whether a host is made of small letters, digits, dots and dashes.
pub open spec fn is_host(s: Seq<char>) -> bool {
    &&& s.len() > 0
    &&& forall|i: int|
        0 <= i < s.len() ==> ('a' <= #[trigger] s[i] <= 'z' || '0' <= s[i] <= '9' || s[i] == '.'
            || s[i] == '-')
}

/// An address may lack its scheme: with or without one it is taken apart alike.
pub proof fn scheme_does_not_matter(url: Seq<char>)
    requires
        trim(url) == url,
        !begins(url, "https://"@),
        !begins(url, "http://"@),
    ensures
        bare("https://"@ + url) == bare(url),
        bare("http://"@ + url) == bare(url),
{
    reveal_strlit("https://");
    reveal_strlit("http://");
    let a = "https://"@ + url;
    let b = "http://"@ + url;
    lemma_trim_edges(url);
    lemma_trim_fixed(a);
    lemma_trim_fixed(b);
    assert(a.subrange(0, 8) =~= "https://"@);
    assert(a.skip(8) =~= url);
    assert(b.subrange(0, 7) =~= "http://"@);
    assert(b.skip(7) =~= url);
    assert(b[4] == ':');
    assert(!begins(b, "https://"@)) by {
        if begins(b, "https://"@) {
            assert(b.subrange(0, 8)[4] == 's');
        }
    }
}

/// A text without the character has nothing to cut.
proof fn lemma_uncut(s: Seq<char>, c: char)
    requires
        !s.contains(c),
    ensures
        cut(s, c) is None,
{
    lemma_find(s, c);
    match find(s, c) {
        Some(i) => {
            assert(s.contains(s[i]));
        },
        None => {},
    }
}

/// How the address of a segment on a host is taken apart.
proof fn lemma_shape(host: Seq<char>, slug: Seq<char>)
    requires
        is_host(host),
        is_slug(slug),
    ensures
        ({
            let url = "https://"@ + host + seq!['/'] + slug;
            &&& host_of(url) == host
            &&& segment_of(url) == Some(slug)
            &&& query_of(url) is None
            &&& lower_of(host) == host
        }),
{
    let url = "https://"@ + host + seq!['/'] + slug;
    let path = host + seq!['/'] + slug;
    reveal_strlit("https://");
    lemma_host(host);
    assert(url.last() == slug[slug.len() - 1]);
    lemma_trim_fixed(url);
    assert(url.subrange(0, 8) =~= "https://"@);
    assert(url.skip(8) =~= path);
    assert(!path.contains('?')) by {
        if path.contains('?') {
            let i = choose|i: int| 0 <= i < path.len() && path[i] == '?';
            if i < host.len() {
                assert(path[i] == host[i]);
            } else if i > host.len() {
                assert(path[i] == slug[i - host.len() - 1]);
            }
        }
    }
    lemma_uncut(path, '?');
    let parts = seq![host, slug];
    assert(!slug.contains('/')) by {
        if slug.contains('/') {
            let i = choose|i: int| 0 <= i < slug.len() && slug[i] == '/';
            assert(is_ascii_alnum(slug[i]) || slug[i] == '-' || slug[i] == '_');
        }
    }
    join_then_split(parts, '/');
    assert(parts.drop_last() =~= seq![host]);
    assert(join(seq![host], seq!['/']) == host);
    assert(join(parts, seq!['/']) =~= path);
    lemma_both_filled(host, slug);
}

/// A host holds no slash, and lower-casing keeps it.
proof fn lemma_host(host: Seq<char>)
    requires
        is_host(host),
    ensures
        !host.contains('/'),
        !host.contains('?'),
        lower_of(host) == host,
{
    if host.contains('/') {
        let i = choose|i: int| 0 <= i < host.len() && host[i] == '/';
        assert('a' <= host[i] <= 'z' || '0' <= host[i] <= '9' || host[i] == '.' || host[i] == '-');
    }
    if host.contains('?') {
        let i = choose|i: int| 0 <= i < host.len() && host[i] == '?';
        assert('a' <= host[i] <= 'z' || '0' <= host[i] <= '9' || host[i] == '.' || host[i] == '-');
    }
    assert(ascii_lowered(host) =~= host);
}

/// Two texts that are not empty both stay.
proof fn lemma_both_filled(a: Seq<char>, b: Seq<char>)
    requires
        a.len() > 0,
        b.len() > 0,
    ensures
        seq![a, b].filter(is_filled()) == seq![a, b],
{
    reveal(Seq::filter);
    let s = seq![a, b];
    assert(s.drop_last() =~= seq![a]);
    assert(seq![a].drop_last() =~= Seq::<Seq<char>>::empty());
    assert(Seq::<Seq<char>>::empty().filter(is_filled()) =~= Seq::<Seq<char>>::empty());
    assert(seq![a].filter(is_filled()) =~= seq![a]);
    assert(s.filter(is_filled()) =~= s);
}

/// A company's page on Greenhouse is its board there.
pub proof fn greenhouse_pages_are_sniffed(slug: Seq<char>)
    requires
        is_slug(slug),
        slug != "embed"@,
        slug != "job_board"@,
    ensures
        sniffed("https://boards.greenhouse.io/"@ + slug) == Some(("greenhouse"@, slug)),
{
    reveal_strlit("https://boards.greenhouse.io/");
    reveal_strlit("https://");
    reveal_strlit("boards.greenhouse.io");
    reveal_strlit("greenhouse.io");
    let host = "boards.greenhouse.io"@;
    lemma_shape(host, slug);
    assert("https://boards.greenhouse.io/"@ + slug =~= "https://"@ + host + seq!['/'] + slug);
    assert(host.subrange(7, 20) =~= "greenhouse.io"@);
}

/// A company's page on Lever is its board there.
pub proof fn lever_pages_are_sniffed(slug: Seq<char>)
    requires
        is_slug(slug),
    ensures
        sniffed("https://jobs.lever.co/"@ + slug) == Some(("lever"@, slug)),
{
    reveal_strlit("https://jobs.lever.co/");
    reveal_strlit("https://");
    reveal_strlit("jobs.lever.co");
    reveal_strlit("greenhouse.io");
    let host = "jobs.lever.co"@;
    lemma_shape(host, slug);
    assert("https://jobs.lever.co/"@ + slug =~= "https://"@ + host + seq!['/'] + slug);
    assert(!ends(host, "greenhouse.io"@)) by {
        assert(host.subrange(0, 13)[0] == 'j');
    }
}

/// A company's page on Ashby is its board there.
pub proof fn ashby_pages_are_sniffed(slug: Seq<char>)
    requires
        is_slug(slug),
    ensures
        sniffed("https://jobs.ashbyhq.com/"@ + slug) == Some(("ashby"@, slug)),
{
    reveal_strlit("https://jobs.ashbyhq.com/");
    reveal_strlit("https://");
    reveal_strlit("jobs.ashbyhq.com");
    reveal_strlit("jobs.lever.co");
    reveal_strlit("greenhouse.io");
    let host = "jobs.ashbyhq.com"@;
    lemma_shape(host, slug);
    assert("https://jobs.ashbyhq.com/"@ + slug =~= "https://"@ + host + seq!['/'] + slug);
    assert(!ends(host, "greenhouse.io"@)) by {
        assert(host.subrange(3, 16)[12] == 'm');
    }
}

/// A company's page on Workable is its board there.
pub proof fn workable_pages_are_sniffed(slug: Seq<char>)
    requires
        is_slug(slug),
    ensures
        sniffed("https://apply.workable.com/"@ + slug) == Some(("workable"@, slug)),
{
    reveal_strlit("https://apply.workable.com/");
    reveal_strlit("https://");
    reveal_strlit("apply.workable.com");
    reveal_strlit("jobs.ashbyhq.com");
    reveal_strlit("ashbyhq.com");
    reveal_strlit("jobs.lever.co");
    reveal_strlit("greenhouse.io");
    let host = "apply.workable.com"@;
    lemma_shape(host, slug);
    assert("https://apply.workable.com/"@ + slug =~= "https://"@ + host + seq!['/'] + slug);
    assert(!ends(host, "greenhouse.io"@)) by {
        assert(host.subrange(5, 18)[12] == 'm');
    }
}

/// A company's own address on Recruitee, in small letters, is its board there.
pub proof fn recruitee_pages_are_sniffed(slug: Seq<char>)
    requires
        is_host(slug),
        !slug.contains('.'),
        slug != "www"@,
    ensures
        sniffed("https://"@ + slug + ".recruitee.com/"@) == Some(("recruitee"@, slug)),
{
    reveal_strlit("https://");
    reveal_strlit(".recruitee.com/");
    reveal_strlit("recruitee.com");
    reveal_strlit("greenhouse.io");
    reveal_strlit("workable.com");
    reveal_strlit("jobs.lever.co");
    reveal_strlit("jobs.ashbyhq.com");
    reveal_strlit("ashbyhq.com");
    reveal_strlit("apply.workable.com");
    let host = slug + seq!['.'] + "recruitee.com"@;
    let url = "https://"@ + slug + ".recruitee.com/"@;
    let path = host + seq!['/'];
    assert forall|i: int| 0 <= i < host.len() implies ('a' <= #[trigger] host[i] <= 'z' || '0'
        <= host[i] <= '9' || host[i] == '.' || host[i] == '-') by {
        if i < slug.len() {
            assert(host[i] == slug[i]);
        } else if i > slug.len() {
            assert(host[i] == "recruitee.com"@[i - slug.len() - 1]);
        }
    }
    lemma_host(host);
    assert(url =~= "https://"@ + path);
    lemma_trim_fixed(url);
    assert(url.subrange(0, 8) =~= "https://"@);
    assert(url.skip(8) =~= path);
    assert(!path.contains('?')) by {
        if path.contains('?') {
            let i = choose|i: int| 0 <= i < path.len() && path[i] == '?';
            assert(host[i] == '?');
        }
    }
    lemma_uncut(path, '?');
    let parts = seq![host, Seq::<char>::empty()];
    join_then_split(parts, '/');
    assert(parts.drop_last() =~= seq![host]);
    assert(join(seq![host], seq!['/']) == host);
    assert(join(parts, seq!['/']) =~= path);
    assert(parts.filter(is_filled()) =~= seq![host]) by {
        reveal(Seq::filter);
        assert(seq![host].drop_last() =~= Seq::<Seq<char>>::empty());
        assert(Seq::<Seq<char>>::empty().filter(is_filled()) =~= Seq::<Seq<char>>::empty());
        assert(seq![host].filter(is_filled()) =~= seq![host]);
    }
    assert(host_of(url) == host);
    assert(segment_of(url) is None);
    let n = host.len() as int;
    assert(host[n - 1] == 'm');
    assert(host[n - 5] == 'e');
    assert(host[n - 4] == '.');
    assert(!ends(host, "greenhouse.io"@)) by {
        if ends(host, "greenhouse.io"@) {
            assert(host.subrange(n - 13, n)[12] == 'o');
        }
    }
    assert(!ends(host, "workable.com"@)) by {
        if ends(host, "workable.com"@) {
            assert(host[n - 6] == 'e');
            assert(host.subrange(n - 12, n)[6] == 'l');
        }
    }
    assert(host != "jobs.lever.co"@);
    assert(host[n - 13] == 'r');
    assert(host != "jobs.ashbyhq.com"@) by {
        if host == "jobs.ashbyhq.com"@ {
            assert(host[15 - 4] == 'q');
        }
    }
    assert(host != "ashbyhq.com"@);
    assert(host != "apply.workable.com"@) by {
        if host == "apply.workable.com"@ {
            assert(n == 18);
            assert(host[n - 6] == 'l');
            assert(host[n - 6] == 'e');
        }
    }
    assert(host.subrange(n - 13, n) =~= "recruitee.com"@);
    let front = host.take(n - 13);
    assert(front.drop_last() =~= slug);
    assert(without_dots(slug) == slug) by {
        if slug.last() == '.' {
            assert(slug.contains(slug[slug.len() - 1]));
        }
    }
    assert(without_dots(front) == slug);
    assert(label_under(host, "recruitee.com"@) == Some(slug));
    assert(seq!["www"@].contains(slug) ==> slug == "www"@);
}

} // verus!
