//! `RawPosting` to `NormalizedPosting`: HTML becomes plain text, the title one
//! line, and the location a coarse remote flag.

pub mod content;
pub mod layout;

use vstd::prelude::*;

use crate::html::{decode_entities, decoded, html_decoded};
use crate::sources::RawPosting;
use crate::text::search::{contains_text, has};
use crate::text::words::{flatten, join, join_texts, single_line_of, split, split_on};
use crate::text::{
    as_opt_str, chars_of, is_blank, is_whitespace, lemma_trim_edges, opt_str, opt_text, same_text,
    texts, trim, trim_start, trim_text,
};
use crate::unicode::{ascii_alnum, ascii_lower, is_ascii_alnum, lower_ascii, lower_of};

verus! {

/// A posting after normalization, ready to be stored.
#[derive(Debug, Clone)]
pub struct NormalizedPosting {
    pub external_id: String,
    pub title: String,
    pub location: Option<String>,
    /// remote | hybrid | onsite | unknown
    pub remote: String,
    pub description: String,
    pub apply_url: String,
}

/// A rendered block: a paragraph or a list item.
#[derive(Debug, Clone, Copy, PartialEq, Eq, Structural)]
pub enum Block {
    Para,
    Bullet,
}

// ---------------------------------------------------------------------------
// Tags
// ---------------------------------------------------------------------------

/// `s` without its leading slashes.
pub open spec fn strip_slashes(s: Seq<char>) -> Seq<char>
    decreases s.len(),
{
    if s.len() > 0 && s[0] == '/' {
        strip_slashes(s.drop_first())
    } else {
        s
    }
}

/// The longest prefix of ASCII letters and digits, in lower case.
pub open spec fn leading_name(s: Seq<char>) -> Seq<char>
    decreases s.len(),
{
    if s.len() > 0 && is_ascii_alnum(s[0]) {
        seq![ascii_lower(s[0])] + leading_name(s.drop_first())
    } else {
        Seq::empty()
    }
}

/// The element name of a tag, given the text between its angle brackets.
pub open spec fn name_of_tag(tag: Seq<char>) -> Seq<char> {
    leading_name(trim_start(strip_slashes(tag)))
}

/// The elements that end a line.
pub open spec fn is_break_name(name: Seq<char>) -> bool {
    ||| name == "br"@
    ||| is_block_name(name)
}

/// The block-level elements.
pub open spec fn is_block_name(name: Seq<char>) -> bool {
    ||| name == "p"@
    ||| name == "div"@
    ||| name == "li"@
    ||| name == "ul"@
    ||| name == "ol"@
    ||| name == "tr"@
    ||| name == "table"@
    ||| name == "section"@
    ||| name == "article"@
    ||| name == "header"@
    ||| name == "footer"@
    ||| name == "blockquote"@
    ||| name == "hr"@
    ||| name == "h1"@
    ||| name == "h2"@
    ||| name == "h3"@
    ||| name == "h4"@
    ||| name == "h5"@
    ||| name == "h6"@
}

/// Whether a tag opens an element, as opposed to closing one.
pub open spec fn is_opening(tag: Seq<char>) -> bool {
    let t = trim_start(tag);
    t.len() == 0 || t[0] != '/'
}

/// The element name of a tag (its inner text, without the angle brackets), in
/// lower case: a leading `/` and any attributes are left out.
pub fn tag_name(tag: &str) -> (r: String)
    ensures
        r@ == name_of_tag(tag@),
{
    let v = chars_of(tag);
    let mut i: usize = 0;
    assert(v@.skip(0) =~= v@);
    while i < v.len() && v[i] == '/'
        invariant
            i <= v.len(),
            strip_slashes(v@) == strip_slashes(v@.skip(i as int)),
        decreases v.len() - i,
    {
        assert(v@.skip(i as int).drop_first() =~= v@.skip(i + 1));
        i += 1;
    }
    let ghost a = v@.skip(i as int);
    while i < v.len() && is_whitespace(v[i])
        invariant
            i <= v.len(),
            trim_start(a) == trim_start(v@.skip(i as int)),
        decreases v.len() - i,
    {
        assert(v@.skip(i as int).drop_first() =~= v@.skip(i + 1));
        i += 1;
    }
    let ghost b = v@.skip(i as int);
    let mut name = String::new();
    assert(leading_name(b) =~= name@ + leading_name(v@.skip(i as int)));
    while i < v.len() && ascii_alnum(v[i])
        invariant
            i <= v.len(),
            leading_name(b) == name@ + leading_name(v@.skip(i as int)),
        decreases v.len() - i,
    {
        let ghost before = name@;
        name.push(lower_ascii(v[i]));
        proof {
            let s = v@.skip(i as int);
            assert(s.drop_first() =~= v@.skip(i + 1));
            assert(before + (seq![ascii_lower(s[0])] + leading_name(s.drop_first())) =~= name@
                + leading_name(v@.skip(i + 1)));
        }
        i += 1;
    }
    assert(name@ + Seq::<char>::empty() =~= name@);
    name
}

/// Whether a name is that of a block-level element.
fn is_block(name: &str) -> (r: bool)
    ensures
        r == is_block_name(name@),
{
    same_text(name, "p") || same_text(name, "div") || same_text(name, "li") || same_text(name, "ul")
        || same_text(name, "ol") || same_text(name, "tr") || same_text(name, "table") || same_text(
        name,
        "section",
    ) || same_text(name, "article") || same_text(name, "header") || same_text(name, "footer")
        || same_text(name, "blockquote") || same_text(name, "hr") || same_text(name, "h1")
        || same_text(name, "h2") || same_text(name, "h3") || same_text(name, "h4") || same_text(
        name,
        "h5",
    ) || same_text(name, "h6")
}

/// Whether a tag (its inner text, without the angle brackets) ends a line.
pub fn is_break_tag(tag: &str) -> (r: bool)
    ensures
        r == is_break_name(name_of_tag(tag@)),
{
    let name = tag_name(tag);
    same_text(name.as_str(), "br") || is_block(name.as_str())
}

// ---------------------------------------------------------------------------
// Blocks
// ---------------------------------------------------------------------------

/// The lines of a text, each reduced to its words, without the empty ones.
pub open spec fn tidy_lines(s: Seq<char>) -> Seq<Seq<char>> {
    split(s, '\n').map_values(|l: Seq<char>| single_line_of(l)).filter(|l: Seq<char>| l.len() > 0)
}

/// The text of a block, from what stood between its tags.
pub open spec fn block_text(s: Seq<char>) -> Seq<char> {
    join(tidy_lines(s), seq!['\n'])
}

/// `blocks` with one more block behind, unless that block is empty.
pub open spec fn with_block(blocks: Seq<(Block, Seq<char>)>, kind: Block, raw: Seq<char>) -> Seq<
    (Block, Seq<char>),
> {
    if block_text(raw).len() == 0 {
        blocks
    } else {
        blocks.push((kind, block_text(raw)))
    }
}

/// Whether the end of `s` lies inside a tag: behind a `<`, with no `>` since.
pub open spec fn inside_tag(s: Seq<char>) -> bool
    decreases s.len(),
{
    s.len() > 0 && (s.last() == '<' || (s.last() != '>' && inside_tag(s.drop_last())))
}

/// The inner text of the last tag that starts in `s`, as far as `s` goes.
pub open spec fn last_tag(s: Seq<char>) -> Seq<char>
    decreases s.len(),
{
    if s.len() == 0 || s.last() == '<' {
        Seq::empty()
    } else if s.last() != '>' && inside_tag(s.drop_last()) {
        last_tag(s.drop_last()).push(s.last())
    } else {
        last_tag(s.drop_last())
    }
}

/// Whether `s` ends with the `>` of a block-level tag.
pub open spec fn ends_block(s: Seq<char>) -> bool {
    s.len() > 0 && s.last() == '>' && is_block_name(name_of_tag(last_tag(s)))
}

/// The kind of the block that is open at the end of `s`.
pub open spec fn open_kind(s: Seq<char>) -> Block
    decreases s.len(),
{
    if s.len() == 0 {
        Block::Para
    } else if ends_block(s) {
        if is_opening(last_tag(s)) && name_of_tag(last_tag(s)) == "li"@ {
            Block::Bullet
        } else {
            Block::Para
        }
    } else {
        open_kind(s.drop_last())
    }
}

/// The text of the block that is open at the end of `s`: what stands outside the
/// tags, a line break for each `br`, a space for each inline tag.
pub open spec fn open_text(s: Seq<char>) -> Seq<char>
    decreases s.len(),
{
    if s.len() == 0 || ends_block(s) {
        Seq::empty()
    } else {
        let before = open_text(s.drop_last());
        if s.last() == '>' {
            before.push(
                if name_of_tag(last_tag(s)) == "br"@ {
                    '\n'
                } else {
                    ' '
                },
            )
        } else if inside_tag(s) {
            before
        } else {
            before.push(s.last())
        }
    }
}

/// The blocks that are complete at the end of `s`.
pub open spec fn closed_blocks(s: Seq<char>) -> Seq<(Block, Seq<char>)>
    decreases s.len(),
{
    if s.len() == 0 {
        Seq::empty()
    } else {
        let d = s.drop_last();
        if ends_block(s) {
            with_block(closed_blocks(d), open_kind(d), open_text(d))
        } else {
            closed_blocks(d)
        }
    }
}

/// All blocks of a document.
pub open spec fn blocks_of(s: Seq<char>) -> Seq<(Block, Seq<char>)> {
    with_block(closed_blocks(s), open_kind(s), open_text(s))
}

/// One block as text: a bullet carries its mark.
pub open spec fn block_shown(b: (Block, Seq<char>)) -> Seq<char> {
    match b.0 {
        Block::Bullet => "• "@ + b.1,
        Block::Para => b.1,
    }
}

/// Blocks as text: neighbouring bullets one line apart, everything else with a
/// blank line between.
pub open spec fn blocks_shown(bs: Seq<(Block, Seq<char>)>) -> Seq<char>
    decreases bs.len(),
{
    if bs.len() == 0 {
        Seq::empty()
    } else if bs.len() == 1 {
        block_shown(bs[0])
    } else {
        let tight = bs.last().0 == Block::Bullet && bs[bs.len() - 2].0 == Block::Bullet;
        blocks_shown(bs.drop_last()) + (if tight {
            "\n"@
        } else {
            "\n\n"@
        }) + block_shown(bs.last())
    }
}

/// A document with its tags resolved into line structure.
pub open spec fn plain_text(s: Seq<char>) -> Seq<char> {
    blocks_shown(blocks_of(s))
}

/// The view of a list of blocks.
pub open spec fn block_views(v: Seq<(Block, String)>) -> Seq<(Block, Seq<char>)> {
    Seq::new(v.len(), |i: int| (v[i].0, v[i].1@))
}

/// The tidied lines of a text.
fn tidy(s: &str) -> (r: Vec<String>)
    ensures
        texts(r@) == tidy_lines(s@),
{
    let v = chars_of(s);
    let fields = split_on(v.as_slice(), '\n');
    let mut out: Vec<String> = Vec::new();
    let mut i: usize = 0;
    let ghost f = |l: Seq<char>| single_line_of(l);
    let ghost keep = |l: Seq<char>| l.len() > 0;
    let ghost all = split(s@, '\n').map_values(f);
    assert(all.take(0).filter(keep) =~= Seq::empty()) by {
        reveal(Seq::filter);
    }
    assert(texts(out@) =~= all.take(0).filter(keep));
    while i < fields.len()
        invariant
            i <= fields.len(),
            texts(fields@) == split(s@, '\n'),
            f == (|l: Seq<char>| single_line_of(l)),
            keep == (|l: Seq<char>| l.len() > 0),
            all == split(s@, '\n').map_values(f),
            texts(out@) == all.take(i as int).filter(keep),
        decreases fields.len() - i,
    {
        let line = flatten(fields[i].as_str());
        let ghost old_out = out@;
        proof {
            assert(texts(fields@)[i as int] == fields@[i as int]@);
            assert(all[i as int] == line@);
            assert(all.take(i + 1).drop_last() =~= all.take(i as int));
            assert(all.take(i + 1).last() == line@);
            reveal(Seq::filter);
        }
        if !line.as_str().is_empty() {
            out.push(line);
            assert(texts(out@) =~= texts(old_out).push(line@));
        }
        i += 1;
    }
    assert(all.take(all.len() as int) =~= all);
    out
}

/// Clean `buf` into a block, append it to `segments` unless it is empty, and
/// clear `buf`.
pub fn push_block(segments: &mut Vec<(Block, String)>, kind: Block, buf: &mut String)
    ensures
        block_views(final(segments)@) == with_block(block_views(old(segments)@), kind, old(buf)@),
        final(buf)@.len() == 0,
{
    let lines = tidy(buf.as_str());
    let cleaned = join_texts(&lines, "\n");
    proof {
        reveal_strlit("\n");
        assert("\n"@ =~= seq!['\n']);
    }
    *buf = String::new();
    if !cleaned.as_str().is_empty() {
        let ghost before = segments@;
        segments.push((kind, cleaned));
        assert(block_views(segments@) =~= block_views(before).push((kind, cleaned@)));
    }
}

/// `br` is not the name of a block-level element.
proof fn lemma_br_is_inline()
    ensures
        !is_block_name("br"@),
{
    reveal_strlit("br");
    reveal_strlit("p");
    reveal_strlit("div");
    reveal_strlit("li");
    reveal_strlit("ul");
    reveal_strlit("ol");
    reveal_strlit("tr");
    reveal_strlit("table");
    reveal_strlit("section");
    reveal_strlit("article");
    reveal_strlit("header");
    reveal_strlit("footer");
    reveal_strlit("blockquote");
    reveal_strlit("hr");
    reveal_strlit("h1");
    reveal_strlit("h2");
    reveal_strlit("h3");
    reveal_strlit("h4");
    reveal_strlit("h5");
    reveal_strlit("h6");
    let b = "br"@;
    assert(b.len() == 2 && b[0] == 'b' && b[1] == 'r');
}

/// Whether a tag opens an element.
fn opens(tag: &str) -> (r: bool)
    ensures
        r == is_opening(tag@),
{
    let v = chars_of(tag);
    let mut i: usize = 0;
    assert(v@.skip(0) =~= v@);
    while i < v.len() && is_whitespace(v[i])
        invariant
            i <= v.len(),
            trim_start(v@) == trim_start(v@.skip(i as int)),
        decreases v.len() - i,
    {
        assert(v@.skip(i as int).drop_first() =~= v@.skip(i + 1));
        i += 1;
    }
    i == v.len() || v[i] != '/'
}

/// The blocks of a document whose character references are decoded.
fn scan_blocks(decoded: &str) -> (r: Vec<(Block, String)>)
    ensures
        block_views(r@) == blocks_of(decoded@),
{
    let v = chars_of(decoded);
    let mut segments: Vec<(Block, String)> = Vec::new();
    let mut buf = String::new();
    // The kind of the text that accumulates in `buf`, set by the block tag in
    // front of it; leading bare text is a paragraph.
    let mut kind = Block::Para;
    let mut tag = String::new();
    let mut in_tag = false;
    let mut i: usize = 0;
    assert(block_views(segments@) =~= closed_blocks(v@.take(0)));
    assert(v@.take(0) =~= Seq::<char>::empty());
    while i < v.len()
        invariant
            i <= v.len(),
            v@ == decoded@,
            in_tag == inside_tag(v@.take(i as int)),
            tag@ == last_tag(v@.take(i as int)),
            kind == open_kind(v@.take(i as int)),
            buf@ == open_text(v@.take(i as int)),
            block_views(segments@) == closed_blocks(v@.take(i as int)),
        decreases v.len() - i,
    {
        let c = v[i];
        let ghost p = v@.take(i + 1);
        assert(p.drop_last() =~= v@.take(i as int));
        assert(p.last() == c);
        if c == '<' {
            in_tag = true;
            tag = String::new();
        } else if c == '>' {
            in_tag = false;
            let name = tag_name(tag.as_str());
            proof {
                lemma_br_is_inline();
            }
            if !is_break_tag(tag.as_str()) {
                buf.push(' ');  // an inline tag separates words
            } else if same_text(name.as_str(), "br") {
                buf.push('\n');  // a line break within the block
            } else {
                push_block(&mut segments, kind, &mut buf);
                assert(buf@ =~= Seq::<char>::empty());
                kind = if opens(tag.as_str()) && same_text(name.as_str(), "li") {
                    Block::Bullet
                } else {
                    Block::Para
                };
            }
        } else if in_tag {
            tag.push(c);
        } else {
            buf.push(c);
        }
        i += 1;
    }
    assert(v@.take(v.len() as int) =~= v@);
    push_block(&mut segments, kind, &mut buf);
    segments
}

/// Resolve the tags of a document whose character references are decoded.
pub fn strip_markup(decoded: &str) -> (r: String)
    ensures
        r@ == plain_text(decoded@),
{
    let segments = scan_blocks(decoded);
    let ghost bs = block_views(segments@);
    let mut out = String::new();
    let mut i: usize = 0;
    assert(out@ =~= blocks_shown(bs.take(0)));
    while i < segments.len()
        invariant
            i <= segments.len(),
            bs == block_views(segments@),
            out@ == blocks_shown(bs.take(i as int)),
        decreases segments.len() - i,
    {
        let ghost p = bs.take(i + 1);
        assert(p.drop_last() =~= bs.take(i as int));
        assert(p.last() == bs[i as int]);
        let kind = segments[i].0;
        if i > 0 {
            assert(p[p.len() - 2] == bs[i - 1]);
            let before = segments[i - 1].0;
            if kind == Block::Bullet && before == Block::Bullet {
                out.append("\n");
            } else {
                out.append("\n\n");
            }
        }
        let ghost sofar = out@;
        match kind {
            Block::Bullet => {
                out.append("• ");
                out.append(segments[i].1.as_str());
                assert(out@ =~= sofar + ("• "@ + bs[i as int].1));
            },
            Block::Para => {
                out.append(segments[i].1.as_str());
            },
        }
        proof {
            if i == 0 {
                assert(sofar =~= Seq::<char>::empty());
                assert(out@ =~= block_shown(p[0]));
            }
        }
        i += 1;
    }
    assert(bs.take(bs.len() as int) =~= bs);
    out
}

/// A description as plain text: its character references decoded, its tags resolved
/// into line structure.
pub open spec fn cleaned(s: Seq<char>) -> Seq<char> {
    plain_text(decoded(s))
}

/// Decode HTML character references, resolve tags, and tidy the whitespace.
/// References are decoded first, so that escaped markup (`&lt;p&gt;`) and real
/// markup both end up as tags.
///
/// List items carry a `• ` and stand one line apart; other block-level elements
/// are separated by a blank line; `<br>` is a line break within its block; inline
/// tags become spaces. Within a line, whitespace collapses to single spaces.
pub fn clean_html(input: &str) -> (r: String)
    ensures
        r@ == cleaned(input@),
        !(input@.contains('&')) ==> r@ == plain_text(input@),
        input@.contains('&') ==> r@ == plain_text(html_decoded(input@)),
{
    let text = decode_entities(input);
    strip_markup(text.as_str())
}

// ---------------------------------------------------------------------------
// Normalization
// ---------------------------------------------------------------------------

/// Whitespace of every kind, line breaks included, becomes single spaces, so that
/// a title always stands on one line.
pub fn single_line(s: &str) -> (r: String)
    ensures
        r@ == single_line_of(s@),
{
    flatten(s)
}

/// The remote flag that a location in lower case suggests.
pub open spec fn remote_word(lower: Seq<char>) -> Seq<char> {
    if has(lower, "hybrid"@) {
        "hybrid"@
    } else if has(lower, "remote"@) {
        "remote"@
    } else {
        "onsite"@
    }
}

/// The remote flag that a location suggests.
pub open spec fn remote_of(location: Option<Seq<char>>) -> Seq<char> {
    match location {
        None => "unknown"@,
        Some(l) => remote_word(lower_of(l)),
    }
}

/// The remote flag that a location in lower case suggests.
pub fn classify_remote(lower: &str) -> (r: String)
    ensures
        r@ == remote_word(lower@),
{
    if contains_text(lower, "hybrid") {
        "hybrid".to_owned()
    } else if contains_text(lower, "remote") {
        "remote".to_owned()
    } else {
        "onsite".to_owned()
    }
}

/// Coarse remote classification from a location string.
pub fn infer_remote(location: Option<&str>) -> (r: String)
    ensures
        r@ == remote_of(opt_str(location)),
{
    match location {
        None => "unknown".to_owned(),
        Some(loc) => {
            let l = loc.to_lowercase();
            classify_remote(l.as_str())
        },
    }
}

/// A location without surrounding whitespace; a blank one is none.
pub open spec fn tidy_location(location: Option<Seq<char>>) -> Option<Seq<char>> {
    match location {
        Some(l) => if trim(l).len() == 0 {
            None
        } else {
            Some(trim(l))
        },
        None => None,
    }
}

/// The remote flag of a posting: the board's own word when it gave one, else what
/// the location suggests.
pub open spec fn remote_flag(given: Option<Seq<char>>, location: Option<Seq<char>>) -> Seq<char> {
    match given {
        Some(g) => if g.len() > 0 {
            g
        } else {
            remote_of(location)
        },
        None => remote_of(location),
    }
}

/// Whether a posting is the normalized form of one off a board: the title on a
/// single line, the location trimmed, the remote flag stated or inferred, and the
/// description as plain text.
pub open spec fn is_normalized(n: NormalizedPosting, raw: RawPosting) -> bool {
    &&& n.external_id == raw.external_id
    &&& n.title@ == single_line_of(raw.title@)
    &&& opt_text(n.location) == tidy_location(opt_text(raw.location))
    &&& n.remote@ == remote_flag(opt_text(raw.remote), tidy_location(opt_text(raw.location)))
    &&& n.description@ == cleaned(raw.description@)
    &&& n.apply_url == raw.apply_url
}

/// Normalize a posting.
pub fn normalize(raw: RawPosting) -> (r: NormalizedPosting)
    ensures
        is_normalized(r, raw),
{
    let location: Option<String> = match &raw.location {
        Some(l) => {
            let t = trim_text(l.as_str());
            if t.as_str().is_empty() {
                None
            } else {
                Some(t)
            }
        },
        None => None,
    };
    let stated = match &raw.remote {
        Some(g) => !g.as_str().is_empty(),
        None => false,
    };
    let remote = match raw.remote {
        Some(g) if stated => g,
        _ => infer_remote(as_opt_str(&location)),
    };
    NormalizedPosting {
        external_id: raw.external_id,
        title: single_line(raw.title.as_str()),
        location,
        remote,
        description: clean_html(raw.description.as_str()),
        apply_url: raw.apply_url,
    }
}

/// A location suggests a hybrid posting if it says so, else a remote one if it says so,
/// in whatever case, and else one on site. Without a location nothing is known.
pub proof fn locations_suggest_how_remote_a_posting_is(l: Seq<char>)
    ensures
        has(lower_of(l), "hybrid"@) ==> remote_of(Some(l)) == "hybrid"@,
        has(lower_of(l), "remote"@) && !(has(lower_of(l), "hybrid"@)) ==> remote_of(Some(l))
            == "remote"@,
        !(has(lower_of(l), "remote"@)) && !(has(lower_of(l), "hybrid"@)) ==> remote_of(Some(l))
            == "onsite"@,
        remote_of(None) == "unknown"@,
{
}

/// Normalizing keeps the board's id and the apply address, puts the title on one line,
/// trims the location and drops a blank one, cleans the description, and keeps a remote
/// flag that the board gave, else goes by the location.
pub proof fn normalizing_keeps_what_the_board_says(n: NormalizedPosting, raw: RawPosting)
    requires
        is_normalized(n, raw),
    ensures
        n.external_id@ == raw.external_id@,
        n.apply_url@ == raw.apply_url@,
        n.title@ == single_line_of(raw.title@),
        n.description@ == plain_text(decoded(raw.description@)),
        raw.location is None ==> n.location is None,
        raw.location matches Some(l) ==> (is_blank(l@) ==> n.location is None),
        raw.location matches Some(l) ==> (!is_blank(l@) ==> opt_text(n.location) == Some(
            trim(l@),
        )),
        raw.remote matches Some(g) ==> (g@.len() > 0 ==> n.remote@ == g@),
        (raw.remote matches Some(g) ==> g@.len() == 0) ==> n.remote@ == remote_of(
            opt_text(n.location),
        ),
{
    match raw.location {
        Some(l) => {
            lemma_trim_edges(l@);
        },
        None => {},
    }
}

} // verus!
