//! Hacker News "Ask HN: Who is hiring?", an aggregator. The newest monthly thread
//! is looked for first; each of its top-level comments is a job posting in free
//! form, whose first line gives the title.

use vstd::prelude::*;

use crate::normalize::content::lemma_field_with;
use crate::normalize::{clean_html, cleaned};
use crate::sources::{Listing, RawFields, RawPosting};
use crate::text::number::{decimal_int, i64_text};
use crate::text::search::{contains_text, has};
use crate::text::words::{
    join, join_then_split, lemma_split, lemma_split_chars, lemma_split_concat, split, split_on,
    split_then_join,
};
use crate::text::{
    blank, chars_of, is_blank, is_space, lemma_trim_around, lemma_trim_edges,
    lemma_trim_end_prefix, lemma_trim_start_suffix, opt_text, texts, trim, trim_start, trim_text,
};
use crate::triage::prompt::{first_chars, prefix_text};
use crate::unicode::lower_of;

verus! {

/// The fewest characters with which the piece before the first pipe stands alone.
pub const HEAD_MIN: usize = 15;

/// The most characters of a title, without the mark that it was cut.
pub const TITLE_MAX: usize = 110;

/// The first line that is not blank, trimmed; the empty text if there is none.
pub open spec fn first_line(lines: Seq<Seq<char>>) -> Seq<char>
    decreases lines.len(),
{
    if lines.len() == 0 {
        Seq::empty()
    } else if is_blank(lines[0]) {
        first_line(lines.drop_first())
    } else {
        trim(lines[0])
    }
}

/// The piece before the first pipe, trimmed.
pub open spec fn head_of(line: Seq<char>) -> Seq<char> {
    trim(split(line, '|')[0])
}

/// The piece before the first pipe, if it is long enough to stand alone, and else
/// the whole line.
pub open spec fn title_base(line: Seq<char>) -> Seq<char> {
    if head_of(line).len() >= HEAD_MIN {
        head_of(line)
    } else {
        line
    }
}

/// A text cut to the length of a title, with a mark if something was cut off.
pub open spec fn clipped(s: Seq<char>) -> Seq<char> {
    if s.len() > TITLE_MAX {
        first_chars(s, TITLE_MAX as nat).push('…')
    } else {
        s
    }
}

/// The title that a comment's text gives.
pub open spec fn title_of_text(text: Seq<char>) -> Seq<char> {
    clipped(title_base(first_line(split(text, '\n'))))
}

/// The title that a comment's text gives: from its first line alone, since the rest
/// is the job description.
pub fn title_from(text: &str) -> (r: String)
    ensures
        r@ == title_of_text(text@),
{
    let lines = split_on(chars_of(text).as_slice(), '\n');
    let mut line = String::new();
    let mut i: usize = 0;
    let mut found = false;
    assert(texts(lines@).skip(0) =~= texts(lines@));
    while i < lines.len() && !found
        invariant
            i <= lines.len(),
            texts(lines@) == split(text@, '\n'),
            found ==> line@ == first_line(texts(lines@)),
            !found ==> line@ == Seq::<char>::empty() && first_line(texts(lines@)) == first_line(
                texts(lines@).skip(i as int),
            ),
        decreases lines.len() - i,
    {
        let ghost rest = texts(lines@).skip(i as int);
        assert(rest[0] == lines@[i as int]@);
        assert(rest.drop_first() =~= texts(lines@).skip(i + 1));
        if !blank(lines[i].as_str()) {
            line = trim_text(lines[i].as_str());
            found = true;
        }
        i += 1;
    }
    assert(line@ == first_line(split(text@, '\n')));
    let pieces = split_on(chars_of(line.as_str()).as_slice(), '|');
    proof {
        lemma_split(line@, '|');
        assert(texts(pieces@).len() == pieces@.len());
        assert(texts(pieces@)[0] == pieces@[0]@);
    }
    let head = trim_text(pieces[0].as_str());
    let base = if chars_of(head.as_str()).len() >= HEAD_MIN {
        head
    } else {
        line
    };
    let mut title = prefix_text(base.as_str(), TITLE_MAX);
    if chars_of(base.as_str()).len() > TITLE_MAX {
        title.push('…');
    }
    title
}

/// A single-line title from the first line of a comment's text.
pub fn derive_title(html: &str) -> (r: String)
    ensures
        r@ == title_of_text(cleaned(html@)),
{
    let text = clean_html(html);
    title_from(text.as_str())
}

/// A title is a single line, and at most one character longer than the most that is
/// kept of a line.
pub proof fn titles_are_short_single_lines(text: Seq<char>)
    ensures
        !title_of_text(text).contains('\n'),
        title_of_text(text).len() <= TITLE_MAX + 1,
{
    let line = first_line(split(text, '\n'));
    lemma_split(text, '\n');
    lemma_first_line(split(text, '\n'));
    lemma_split(line, '|');
    let piece = split(line, '|')[0];
    assert(!piece.contains('\n')) by {
        if piece.contains('\n') {
            lemma_split_chars(line, '|', 0, '\n');
        }
    }
    lemma_trim_chars(piece, '\n');
    let base = title_base(line);
    assert(!base.contains('\n'));
    let t = clipped(base);
    if t.contains('\n') {
        let i = choose|i: int| 0 <= i < t.len() && t[i] == '\n';
        assert(base[i] == '\n');
    }
}

/// A title comes from the first line that is not blank: what follows that line does not
/// matter, and blank lines before it do not either.
pub proof fn titles_come_from_the_first_line(a: Seq<char>, b: Seq<char>)
    ensures
        !is_blank(a) ==> title_of_text(a + seq!['\n'] + b) == title_of_text(a),
        is_blank(a) ==> title_of_text(a + seq!['\n'] + b) == title_of_text(b),
        is_blank(a) ==> title_of_text(a) == Seq::<char>::empty(),
{
    lemma_split_concat(a, b, '\n');
    lemma_split(a, '\n');
    lemma_first_line_concat(split(a, '\n'), split(b, '\n'));
    split_then_join(a, '\n');
    if is_blank(a) {
        assert forall|k: int| 0 <= k < split(a, '\n').len() implies is_blank(
            #[trigger] split(a, '\n')[k],
        ) by {
            let f = split(a, '\n')[k];
            assert forall|i: int| 0 <= i < f.len() implies is_space(#[trigger] f[i]) by {
                assert(f.contains(f[i]));
                lemma_split_chars(a, '\n', k, f[i]);
                let j = choose|j: int| 0 <= j < a.len() && a[j] == f[i];
                assert(is_space(a[j]));
            }
        }
        lemma_split(Seq::empty(), '|');
        lemma_no_lines(split(a, '\n'));
    } else {
        let i = choose|i: int| 0 <= i < a.len() && !is_space(#[trigger] a[i]);
        let k = lemma_field_with(a, '\n', i);
        let f = split(a, '\n')[k];
        let j = choose|j: int| 0 <= j < f.len() && f[j] == a[i];
        assert(!is_space(f[j]));
    }
}

/// Blank lines have no first line.
proof fn lemma_no_lines(lines: Seq<Seq<char>>)
    requires
        forall|k: int| 0 <= k < lines.len() ==> is_blank(#[trigger] lines[k]),
    ensures
        first_line(lines) == Seq::<char>::empty(),
        title_of_first(first_line(lines)) == Seq::<char>::empty(),
    decreases lines.len(),
{
    if lines.len() > 0 {
        let d = lines.drop_first();
        assert forall|k: int| 0 <= k < d.len() implies is_blank(#[trigger] d[k]) by {
            assert(d[k] == lines[k + 1]);
        }
        lemma_no_lines(d);
    } else {
        let e = Seq::<char>::empty();
        assert(split(e, '|') =~= seq![e]);
        assert(trim(e) =~= e);
    }
}

/// The title that a first line gives.
spec fn title_of_first(line: Seq<char>) -> Seq<char> {
    clipped(title_base(line))
}

/// The first line of lines and further lines.
proof fn lemma_first_line_concat(a: Seq<Seq<char>>, b: Seq<Seq<char>>)
    ensures
        (exists|k: int| 0 <= k < a.len() && !is_blank(#[trigger] a[k])) ==> first_line(a + b)
            == first_line(a),
        (forall|k: int| 0 <= k < a.len() ==> is_blank(#[trigger] a[k])) ==> first_line(a + b)
            == first_line(b),
    decreases a.len(),
{
    if a.len() == 0 {
        assert(a + b =~= b);
    } else {
        let d = a.drop_first();
        assert((a + b)[0] == a[0]);
        assert((a + b).drop_first() =~= d + b);
        lemma_first_line_concat(d, b);
        if is_blank(a[0]) {
            if exists|k: int| 0 <= k < a.len() && !is_blank(#[trigger] a[k]) {
                let k = choose|k: int| 0 <= k < a.len() && !is_blank(#[trigger] a[k]);
                assert(d[k - 1] == a[k]);
            } else {
                assert forall|k: int| 0 <= k < d.len() implies is_blank(#[trigger] d[k]) by {
                    assert(d[k] == a[k + 1]);
                }
            }
        }
    }
}

/// A line is its title, unless a piece of at least fifteen characters stands before its
/// first pipe, which then is the title. What is longer than 110 characters is cut there
/// and marked.
pub proof fn lines_give_their_head_or_themselves(
    head: Seq<char>,
    gap: Seq<char>,
    tail: Seq<char>,
)
    requires
        !head.contains('\n'),
        !head.contains('|'),
        !is_blank(head),
        trim(head) == head,
        is_blank(gap),
        !gap.contains('\n'),
        !tail.contains('\n'),
    ensures
        head.len() <= 110 ==> title_of_text(head) == head,
        head.len() > 110 ==> title_of_text(head) == head.take(110).push('…'),
        ({
            let line = head + gap + seq!['|'] + tail;
            &&& 15 <= head.len() <= 110 ==> title_of_text(line) == head
            &&& head.len() > 110 ==> title_of_text(line) == head.take(110).push('…')
            &&& head.len() < 15 && trim(line).len() <= 110 ==> title_of_text(line) == trim(line)
            &&& head.len() < 15 && trim(line).len() > 110 ==> title_of_text(line) == trim(
                line,
            ).take(110).push('…')
        }),
{
    lemma_one_line(head);
    lemma_trim_edges(head);
    join_then_split(seq![head], '|');
    assert(seq![head].drop_last() =~= Seq::<Seq<char>>::empty());
    assert(join(seq![head], seq!['|']) == head);
    let first = head + gap;
    let front = first + seq!['|'];
    let s = front + tail;
    assert(!s.contains('\n')) by {
        if s.contains('\n') {
            let i = choose|i: int| 0 <= i < s.len() && s[i] == '\n';
            if i < head.len() {
                assert(head[i] == '\n');
            } else if i < first.len() {
                assert(gap[i - head.len()] == '\n');
            } else if i >= front.len() {
                assert(tail[i - front.len()] == '\n');
            }
        }
    }
    lemma_one_line(s);
    assert(s[0] == head[0]);
    assert(!is_space(s[0]));
    assert(trim_start(s) == s);
    assert(front.last() == '|');
    lemma_trim_end_prefix(s);
    let t = trim(s);
    assert(t.len() >= front.len()) by {
        if t.len() < front.len() {
            assert(is_space(s[front.len() - 1]));
        }
    }
    let rest = t.skip(front.len() as int);
    assert(t =~= first + seq!['|'] + rest);
    lemma_split_concat(first, rest, '|');
    assert(!first.contains('|')) by {
        if first.contains('|') {
            let i = choose|i: int| 0 <= i < first.len() && first[i] == '|';
            if i < head.len() {
                assert(head[i] == '|');
            } else {
                assert(is_space(gap[i - head.len()]));
            }
        }
    }
    join_then_split(seq![first], '|');
    assert(seq![first].drop_last() =~= Seq::<Seq<char>>::empty());
    assert(join(seq![first], seq!['|']) == first);
    assert(split(t, '|')[0] == first);
    lemma_trim_around(Seq::empty(), head, gap);
    assert(Seq::<char>::empty() + head + gap =~= first);
    assert(!is_blank(s));
}

/// A text of one line that is not blank is its own first line, trimmed.
proof fn lemma_one_line(s: Seq<char>)
    requires
        !s.contains('\n'),
    ensures
        !is_blank(s) ==> first_line(split(s, '\n')) == trim(s),
{
    let one = seq![s];
    assert(one.drop_last() =~= Seq::<Seq<char>>::empty());
    assert(join(one, seq!['\n']) == s);
    join_then_split(one, '\n');
}

/// Trimming adds no character.
proof fn lemma_trim_chars(s: Seq<char>, c: char)
    requires
        !s.contains(c),
    ensures
        !trim(s).contains(c),
{
    lemma_trim_start_suffix(s);
    let t = trim_start(s);
    lemma_trim_end_prefix(t);
    if trim(s).contains(c) {
        let i = choose|i: int| 0 <= i < trim(s).len() && trim(s)[i] == c;
        assert(t[i] == c);
        assert(s[i + s.len() - t.len()] == c);
    }
}

/// The first line of lines without breaks has none.
proof fn lemma_first_line(lines: Seq<Seq<char>>)
    requires
        forall|k: int| 0 <= k < lines.len() ==> !(#[trigger] lines[k]).contains('\n'),
    ensures
        !first_line(lines).contains('\n'),
    decreases lines.len(),
{
    if lines.len() > 0 {
        if is_blank(lines[0]) {
            let d = lines.drop_first();
            assert forall|k: int| 0 <= k < d.len() implies !(#[trigger] d[k]).contains('\n') by {
                assert(d[k] == lines[k + 1]);
            }
            lemma_first_line(d);
        } else {
            lemma_trim_chars(lines[0], '\n');
        }
    }
}

// ---------------------------------------------------------------------------
// The thread
// ---------------------------------------------------------------------------

/// A story that the search finds.
#[derive(Debug, Clone)]
pub struct SearchHit {
    pub object_id: String,
    pub title: Option<String>,
}

/// Whether a title in lower case is that of a hiring thread, and not of its "wants
/// to be hired" sibling.
pub open spec fn is_hiring_title(lower: Seq<char>) -> bool {
    has(lower, "who is hiring"@) && !(has(lower, "wants to be hired"@))
}

/// Whether a title in lower case is that of a hiring thread.
pub fn is_hiring(lower: &str) -> (r: bool)
    ensures
        r == is_hiring_title(lower@),
{
    contains_text(lower, "who is hiring") && !contains_text(lower, "wants to be hired")
}

/// Whether a story is a hiring thread.
pub open spec fn is_hiring_thread(h: SearchHit) -> bool {
    opt_text(h.title) matches Some(t) && is_hiring_title(lower_of(t))
}

/// The first hiring thread.
pub open spec fn first_thread(hits: Seq<SearchHit>) -> Option<Seq<char>>
    decreases hits.len(),
{
    if hits.len() == 0 {
        None
    } else if is_hiring_thread(hits[0]) {
        Some(hits[0].object_id@)
    } else {
        first_thread(hits.drop_first())
    }
}

/// The newest hiring thread among stories, the newest of which comes first. Without
/// one the board is empty.
pub fn pick_thread(hits: &Vec<SearchHit>) -> (r: Option<String>)
    ensures
        opt_text(r) == first_thread(hits@),
{
    let mut i: usize = 0;
    assert(hits@.skip(0) =~= hits@);
    while i < hits.len()
        invariant
            i <= hits.len(),
            first_thread(hits@) == first_thread(hits@.skip(i as int)),
        decreases hits.len() - i,
    {
        let h = &hits[i];
        let hiring = match &h.title {
            Some(t) => {
                let lower = t.as_str().to_lowercase();
                is_hiring(lower.as_str())
            },
            None => false,
        };
        if hiring {
            return Some(h.object_id.clone());
        }
        assert(hits@.skip(i as int).drop_first() =~= hits@.skip(i + 1));
        i += 1;
    }
    None
}

/// The thread that is picked is the first one whose title, in lower case, asks who is
/// hiring and not who wants to be hired; without one, none is picked.
pub proof fn the_first_hiring_thread_is_picked(hits: Seq<SearchHit>, i: int)
    requires
        0 <= i < hits.len(),
        forall|j: int|
            0 <= j < i ==> (#[trigger] hits[j]).title is None || !(has(
                lower_of(hits[j].title->Some_0@),
                "who is hiring"@,
            )) || has(lower_of(hits[j].title->Some_0@), "wants to be hired"@),
    ensures
        hits[i].title is Some && has(lower_of(hits[i].title->Some_0@), "who is hiring"@) && !(has(
            lower_of(hits[i].title->Some_0@),
            "wants to be hired"@,
        )) ==> first_thread(hits) == Some(hits[i].object_id@),
        i == hits.len() - 1 && (hits[i].title is None || !(has(
            lower_of(hits[i].title->Some_0@),
            "who is hiring"@,
        )) || has(lower_of(hits[i].title->Some_0@), "wants to be hired"@)) ==> first_thread(hits)
            is None,
    decreases hits.len(),
{
    let d = hits.drop_first();
    if i == 0 {
        assert(d.len() == hits.len() - 1);
    } else {
        assert(!is_hiring_thread(hits[0]));
        assert forall|j: int| 0 <= j < i - 1 implies (#[trigger] d[j]).title is None || !(has(
            lower_of(d[j].title->Some_0@),
            "who is hiring"@,
        )) || has(lower_of(d[j].title->Some_0@), "wants to be hired"@) by {
            assert(d[j] == hits[j + 1]);
        }
        the_first_hiring_thread_is_picked(d, i - 1);
        assert(d[i - 1] == hits[i]);
    }
}

/// Where the comments of a thread are.
pub fn thread_url(object_id: &str) -> (r: String)
    ensures
        r@ == "https://hn.algolia.com/api/v1/items/"@ + object_id@,
{
    let mut s = "https://hn.algolia.com/api/v1/items/".to_owned();
    s.append(object_id);
    s
}

/// A top-level comment.
#[derive(Debug, Clone)]
pub struct Comment {
    pub id: i64,
    pub text: Option<String>,
}

impl Listing for Comment {
    open spec fn shown(&self) -> Option<RawFields> {
        match opt_text(self.text) {
            Some(t) => if is_blank(t) {
                None
            } else {
                Some(
                    RawFields {
                        external_id: decimal_int(self.id as int),
                        title: title_of_text(cleaned(t)),
                        location: None,
                        description: t,
                        apply_url: "https://news.ycombinator.com/item?id="@ + decimal_int(
                            self.id as int,
                        ),
                        remote: None,
                    },
                )
            },
            None => None,
        }
    }

    fn posting(&self) -> (r: Option<RawPosting>)
        ensures
            r is Some <==> self.text is Some && !is_blank(self.text->Some_0@),
            r matches Some(p) ==> p.external_id@ == decimal_int(self.id as int),
            r matches Some(p) ==> p.title@ == title_of_text(cleaned(self.text->Some_0@)),
            r matches Some(p) ==> p.description@ == self.text->Some_0@,
            r matches Some(p) ==> p.apply_url@ == "https://news.ycombinator.com/item?id="@
                + decimal_int(self.id as int),
            r matches Some(p) ==> p.location is None && p.remote is None,
    {
        match &self.text {
            Some(t) => {
                if blank(t.as_str()) {
                    return None;
                }
                let id = i64_text(self.id);
                let mut apply_url = "https://news.ycombinator.com/item?id=".to_owned();
                apply_url.append(id.as_str());
                Some(
                    RawPosting {
                        external_id: id,
                        title: derive_title(t.as_str()),
                        location: None,
                        description: t.clone(),
                        apply_url,
                        remote: None,
                    },
                )
            },
            None => None,
        }
    }
}

} // verus!
