//! What of a document stays, and where its lines are broken.

use vstd::prelude::*;

use crate::normalize::layout::{block_text_is_tidy, lemma_block_text_chars};
use crate::normalize::{
    block_shown, block_text, blocks_of, blocks_shown, closed_blocks, ends_block, inside_tag,
    is_block_name, is_break_name, is_opening, last_tag, leading_name, name_of_tag, open_kind,
    open_text, plain_text, strip_slashes, tidy_lines, with_block, Block,
};
use crate::text::words::{
    join, join_then_split, lemma_join_push, lemma_split, lemma_split_concat, lemma_words,
    lemma_words_concat, lemma_words_of_join, lemma_words_space, single_line_of, split,
    split_then_join, words,
};
use crate::text::{is_blank, is_space, trim_start};
use crate::unicode::{ascii_lower, is_ascii_alnum};

verus! {

// ---------------------------------------------------------------------------
// Nothing is lost
// ---------------------------------------------------------------------------

/// Whether the character at a place stands outside of tags: it is no angle bracket,
/// and every `<` before it is followed by a `>` before it.
pub open spec fn is_outside(s: Seq<char>, i: int) -> bool {
    &&& s[i] != '<'
    &&& s[i] != '>'
    &&& forall|j: int|
        0 <= j < i && #[trigger] s[j] == '<' ==> exists|k: int| j < k < i && #[trigger] s[k] == '>'
}

/// The characters that stand outside of tags, in order.
pub open spec fn outside_text(s: Seq<char>) -> Seq<char>
    decreases s.len(),
{
    if s.len() == 0 {
        Seq::empty()
    } else if is_outside(s, s.len() - 1) {
        outside_text(s.drop_last()).push(s.last())
    } else {
        outside_text(s.drop_last())
    }
}

/// Whether a character is neither whitespace nor a bullet mark.
pub open spec fn is_letter() -> spec_fn(char) -> bool {
    |c: char| !is_space(c) && c != '•'
}

/// The characters that are neither whitespace nor bullet marks, in order.
pub open spec fn letters(s: Seq<char>) -> Seq<char> {
    s.filter(is_letter())
}

/// The letters of texts, one after the other.
spec fn letters_of(parts: Seq<Seq<char>>) -> Seq<char>
    decreases parts.len(),
{
    if parts.len() == 0 {
        Seq::empty()
    } else {
        letters_of(parts.drop_last()) + letters(parts.last())
    }
}

/// The texts of blocks.
spec fn block_texts(bs: Seq<(Block, Seq<char>)>) -> Seq<Seq<char>> {
    Seq::new(bs.len(), |i: int| bs[i].1)
}

proof fn lemma_letters_add(a: Seq<char>, b: Seq<char>)
    ensures
        letters(a + b) == letters(a) + letters(b),
{
    Seq::filter_distributes_over_add(a, b, is_letter());
}

proof fn lemma_letters_push(a: Seq<char>, c: char)
    ensures
        letters(a.push(c)) == if is_letter()(c) {
            letters(a).push(c)
        } else {
            letters(a)
        },
{
    reveal(Seq::filter);
    assert(a.push(c).drop_last() =~= a);
}

/// A text of whitespace and marks has no letters.
proof fn lemma_no_letters(a: Seq<char>)
    requires
        forall|i: int| 0 <= i < a.len() ==> !is_letter()(#[trigger] a[i]),
    ensures
        letters(a) == Seq::<char>::empty(),
    decreases a.len(),
{
    reveal(Seq::filter);
    if a.len() > 0 {
        let d = a.drop_last();
        assert forall|i: int| 0 <= i < d.len() implies !is_letter()(#[trigger] d[i]) by {
            assert(d[i] == a[i]);
        }
        lemma_no_letters(d);
        assert(!is_letter()(a[a.len() - 1]));
    } else {
        assert(letters(a) =~= Seq::<char>::empty());
    }
}

/// Joining with whitespace adds no letters.
proof fn lemma_letters_join(parts: Seq<Seq<char>>, sep: Seq<char>)
    requires
        letters(sep) == Seq::<char>::empty(),
    ensures
        letters(join(parts, sep)) == letters_of(parts),
    decreases parts.len(),
{
    if parts.len() == 0 {
        lemma_no_letters(Seq::empty());
    } else if parts.len() == 1 {
        let none = parts.drop_last();
        assert(letters_of(none) =~= Seq::empty());
        assert(letters_of(parts) =~= letters(parts[0]));
    } else {
        let front = parts.drop_last();
        lemma_letters_join(front, sep);
        lemma_letters_add(join(front, sep) + sep, parts.last());
        lemma_letters_add(join(front, sep), sep);
        assert(letters(join(front, sep)) + Seq::<char>::empty() =~= letters(join(front, sep)));
    }
}

/// The letters of the words are the letters of the text.
proof fn lemma_letters_words(s: Seq<char>)
    ensures
        letters_of(words(s)) == letters(s),
    decreases s.len(),
{
    if s.len() == 0 {
        lemma_no_letters(s);
        assert(words(s) =~= Seq::empty());
    } else {
        let d = s.drop_last();
        let c = s.last();
        let before = words(d);
        lemma_letters_words(d);
        lemma_letters_push(d, c);
        assert(d.push(c) =~= s);
        if is_space(c) {
        } else if s.len() == 1 || is_space(s[s.len() - 2]) {
            assert(before.push(seq![c]).drop_last() =~= before);
            assert(seq![c] =~= Seq::<char>::empty().push(c));
            lemma_letters_push(Seq::empty(), c);
            lemma_no_letters(Seq::empty());
            assert(letters_of(words(s)) =~= letters(s));
        } else {
            assert(d.last() == s[s.len() - 2]);
            lemma_words(d);
            let w = before.last();
            assert(words(s).drop_last() =~= before.drop_last());
            lemma_letters_push(w, c);
            assert(letters_of(words(s)) =~= letters(s));
        }
    }
}

/// Parts that are reduced to single lines keep their letters, and empty parts have
/// none.
proof fn lemma_letters_tidy(parts: Seq<Seq<char>>)
    ensures
        letters_of(
            parts.map_values(|l: Seq<char>| single_line_of(l)).filter(|l: Seq<char>| l.len() > 0),
        ) == letters_of(parts),
    decreases parts.len(),
{
    let g = |l: Seq<char>| single_line_of(l);
    let keep = |l: Seq<char>| l.len() > 0;
    reveal(Seq::filter);
    let all = parts.map_values(g);
    if parts.len() == 0 {
        assert(all.filter(keep) =~= parts);
    } else {
        let d = parts.drop_last();
        let l = parts.last();
        lemma_letters_tidy(d);
        assert(all.drop_last() =~= d.map_values(g));
        assert(all.last() == single_line_of(l));
        lemma_letters_words(l);
        lemma_no_letters(seq![' ']);
        lemma_letters_join(words(l), seq![' ']);
        assert(letters(single_line_of(l)) == letters(l));
        if single_line_of(l).len() == 0 {
            lemma_no_letters(single_line_of(l));
            assert(letters_of(d) + letters(l) =~= letters_of(d));
        } else {
            let f = d.map_values(g).filter(keep);
            assert(f.push(single_line_of(l)).drop_last() =~= f);
        }
    }
}

/// The text of a block keeps the letters.
proof fn lemma_letters_block(s: Seq<char>)
    ensures
        letters(block_text(s)) == letters(s),
{
    lemma_no_letters(seq!['\n']);
    lemma_letters_join(tidy_lines(s), seq!['\n']);
    lemma_letters_tidy(split(s, '\n'));
    lemma_letters_join(split(s, '\n'), seq!['\n']);
    split_then_join(s, '\n');
}

/// Showing blocks adds whitespace and bullet marks only.
proof fn lemma_letters_shown(bs: Seq<(Block, Seq<char>)>)
    ensures
        letters(blocks_shown(bs)) == letters_of(block_texts(bs)),
    decreases bs.len(),
{
    reveal_strlit("• ");
    reveal_strlit("\n");
    reveal_strlit("\n\n");
    lemma_no_letters("• "@);
    lemma_no_letters("\n"@);
    lemma_no_letters("\n\n"@);
    if bs.len() == 0 {
        lemma_no_letters(Seq::empty());
        assert(block_texts(bs) =~= Seq::empty());
    } else {
        let last = bs[bs.len() - 1];
        let front = bs.drop_last();
        assert(block_texts(bs).drop_last() =~= block_texts(front));
        assert(block_texts(bs).last() == last.1);
        lemma_letters_add("• "@, last.1);
        assert(letters(block_shown(last)) =~= letters(last.1));
        if bs.len() == 1 {
            assert(block_texts(front) =~= Seq::empty());
            assert(letters_of(block_texts(front)) =~= Seq::<char>::empty());
            assert(letters_of(block_texts(bs)) =~= letters(last.1));
        } else {
            lemma_letters_shown(front);
            let tight = bs.last().0 == Block::Bullet && bs[bs.len() - 2].0 == Block::Bullet;
            let sep = if tight {
                "\n"@
            } else {
                "\n\n"@
            };
            lemma_letters_add(blocks_shown(front) + sep, block_shown(last));
            lemma_letters_add(blocks_shown(front), sep);
            assert(letters(blocks_shown(front)) + letters(sep) =~= letters(blocks_shown(front)));
        }
    }
}

/// A further block adds the letters of its text.
proof fn lemma_letters_with(bs: Seq<(Block, Seq<char>)>, kind: Block, raw: Seq<char>)
    ensures
        letters_of(block_texts(with_block(bs, kind, raw))) == letters_of(block_texts(bs))
            + letters(raw),
{
    lemma_letters_block(raw);
    if block_text(raw).len() == 0 {
        lemma_no_letters(block_text(raw));
        assert(letters_of(block_texts(bs)) + letters(raw) =~= letters_of(block_texts(bs)));
    } else {
        let all = block_texts(with_block(bs, kind, raw));
        assert(all.drop_last() =~= block_texts(bs));
        assert(all.last() == block_text(raw));
    }
}

/// The end of a text lies inside a tag exactly when some `<` is not followed by a
/// `>`.
proof fn lemma_inside(s: Seq<char>)
    ensures
        inside_tag(s) <==> !tags_closed(s),
    decreases s.len(),
{
    if s.len() > 0 {
        let d = s.drop_last();
        let n = s.len() - 1;
        lemma_inside(d);
        if s.last() == '<' {
            assert(s[n] == '<');
        } else if s.last() == '>' {
            assert forall|j: int| 0 <= j < s.len() && #[trigger] s[j] == '<' implies exists|k: int|
                j < k < s.len() && #[trigger] s[k] == '>' by {
                assert(s[n] == '>');
            }
        } else if tags_closed(d) {
            assert forall|j: int| 0 <= j < s.len() && #[trigger] s[j] == '<' implies exists|k: int|
                j < k < s.len() && #[trigger] s[k] == '>' by {
                assert(d[j] == '<');
                let k = choose|k: int| j < k < d.len() && #[trigger] d[k] == '>';
                assert(s[k] == '>');
            }
        } else {
            let j = choose|j: int|
                0 <= j < d.len() && #[trigger] d[j] == '<' && !(exists|k: int|
                    j < k < d.len() && #[trigger] d[k] == '>');
            assert(s[j] == '<');
            if exists|k: int| j < k < s.len() && #[trigger] s[k] == '>' {
                let k = choose|k: int| j < k < s.len() && #[trigger] s[k] == '>';
                assert(d[k] == '>');
            }
        }
    }
}

/// Whether every `<` is followed by a `>`.
pub open spec fn tags_closed(s: Seq<char>) -> bool {
    forall|j: int|
        0 <= j < s.len() && #[trigger] s[j] == '<' ==> exists|k: int|
            j < k < s.len() && #[trigger] s[k] == '>'
}

/// The last character stands outside of tags if it is no bracket and the text before
/// it does not end inside a tag.
proof fn lemma_outside_last(s: Seq<char>)
    requires
        s.len() > 0,
    ensures
        is_outside(s, s.len() - 1) <==> s.last() != '<' && s.last() != '>' && !inside_tag(
            s.drop_last(),
        ),
{
    let d = s.drop_last();
    let n = s.len() - 1;
    lemma_inside(d);
    if tags_closed(d) {
        assert forall|j: int| 0 <= j < n && #[trigger] s[j] == '<' implies exists|k: int|
            j < k < n && #[trigger] s[k] == '>' by {
            assert(d[j] == '<');
            let k = choose|k: int| j < k < d.len() && #[trigger] d[k] == '>';
            assert(s[k] == '>');
        }
    } else {
        let j = choose|j: int|
            0 <= j < d.len() && #[trigger] d[j] == '<' && !(exists|k: int|
                j < k < d.len() && #[trigger] d[k] == '>');
        assert(s[j] == '<');
        if exists|k: int| j < k < n && #[trigger] s[k] == '>' {
            let k = choose|k: int| j < k < n && #[trigger] s[k] == '>';
            assert(d[k] == '>');
        }
    }
}

/// The finished blocks and the open one hold the letters so far.
proof fn lemma_letters_so_far(s: Seq<char>)
    ensures
        letters_of(block_texts(closed_blocks(s))) + letters(open_text(s)) == letters(
            outside_text(s),
        ),
    decreases s.len(),
{
    if s.len() == 0 {
        lemma_no_letters(Seq::empty());
        assert(block_texts(closed_blocks(s)) =~= Seq::empty());
        assert(letters_of(block_texts(closed_blocks(s))) + letters(open_text(s)) =~= letters(
            outside_text(s),
        ));
    } else {
        let d = s.drop_last();
        let c = s.last();
        lemma_letters_so_far(d);
        lemma_outside_last(s);
        lemma_letters_push(outside_text(d), c);
        if ends_block(s) {
            lemma_letters_with(closed_blocks(d), open_kind(d), open_text(d));
            lemma_no_letters(open_text(s));
            assert(letters_of(block_texts(closed_blocks(s))) + letters(open_text(s))
                =~= letters_of(block_texts(closed_blocks(s))));
        } else if c == '>' {
            lemma_letters_push(open_text(d), '\n');
            lemma_letters_push(open_text(d), ' ');
        } else if inside_tag(s) {
        } else {
            lemma_letters_push(open_text(d), c);
            assert(letters_of(block_texts(closed_blocks(s))) + letters(open_text(s)) =~= letters(
                outside_text(s),
            ));
        }
    }
}

/// No text outside of tags is lost, and none is made up: but for whitespace and
/// bullet marks, the characters of the plain text are those of the document that
/// stand outside of tags, in order.
pub proof fn plain_text_keeps_the_letters(s: Seq<char>)
    ensures
        letters(plain_text(s)) == letters(outside_text(s)),
{
    lemma_letters_so_far(s);
    lemma_letters_with(closed_blocks(s), open_kind(s), open_text(s));
    lemma_letters_shown(blocks_of(s));
}

// ---------------------------------------------------------------------------
// Where lines are broken
// ---------------------------------------------------------------------------

/// Whether a text holds no angle bracket.
pub open spec fn is_bare(s: Seq<char>) -> bool {
    !s.contains('<') && !s.contains('>')
}

/// Whether a character is a letter of a name in small or in capital letters.
pub open spec fn is_spelled(c: char, small: char) -> bool {
    c == small || ('A' <= c <= 'Z' && c as int + 32 == small as int)
}

/// Whether the inner text of a tag is that of an element's opening or closing tag: the
/// name in small or capital letters, behind a slash if it is a closing tag, and then
/// nothing, or something that starts with no letter or digit.
pub open spec fn is_tag(t: Seq<char>, name: Seq<char>, closing: bool) -> bool {
    let at: int = if closing {
        1
    } else {
        0
    };
    &&& t.len() >= at + name.len()
    &&& closing ==> t[0] == '/'
    &&& forall|i: int| 0 <= i < name.len() ==> is_spelled(t[at + i], #[trigger] name[i])
    &&& t.len() > at + name.len() ==> !is_ascii_alnum(t[at + name.len()])
}

/// Whether a name is that of an element that starts and ends a paragraph.
pub open spec fn is_paragraph(name: Seq<char>) -> bool {
    ||| name == "p"@
    ||| name == "div"@
    ||| name == "ul"@
    ||| name == "ol"@
    ||| name == "tr"@
    ||| name == "table"@
    ||| name == "section"@
    ||| name == "article"@
    ||| name == "header"@
    ||| name == "footer"@
    ||| name == "blockquote"@
    ||| name == "hr"@
    ||| name == "h1"@
    ||| name == "h2"@
    ||| name == "h3"@
    ||| name == "h4"@
    ||| name == "h5"@
    ||| name == "h6"@
}

/// A tag around its inner text.
pub open spec fn tag(t: Seq<char>) -> Seq<char> {
    seq!['<'] + t + seq!['>']
}

/// Whether a name is made of small letters and digits.
pub open spec fn is_plain_name(name: Seq<char>) -> bool {
    &&& name.len() > 0
    &&& forall|i: int|
        0 <= i < name.len() ==> 'a' <= #[trigger] name[i] <= 'z' || '0' <= name[i] <= '9'
}

/// The names of elements are made of small letters and digits.
proof fn lemma_plain_names(name: Seq<char>)
    requires
        is_paragraph(name) || name == "li"@ || name == "br"@,
    ensures
        is_plain_name(name),
        is_paragraph(name) ==> name != "li"@,
{
    reveal_strlit("p");
    reveal_strlit("div");
    reveal_strlit("li");
    reveal_strlit("br");
    reveal_strlit("ul");
    reveal_strlit("ol");
    reveal_strlit("tr");
    reveal_strlit("table");
    reveal_strlit("section");
    reveal_strlit("article");
    reveal_strlit("header");
    reveal_strlit("footer");
    reveal_strlit("blockquote");
    reveal_strlit("hr");
    reveal_strlit("h1");
    reveal_strlit("h2");
    reveal_strlit("h3");
    reveal_strlit("h4");
    reveal_strlit("h5");
    reveal_strlit("h6");
    assert("li"@[0] == 'l');
    if is_paragraph(name) {
        assert(name[0] != 'l');
    }
}

/// The name at the start of a text.
proof fn lemma_leading_name(t: Seq<char>, name: Seq<char>)
    requires
        is_plain_name(name) || name.len() == 0,
        is_tag(t, name, false),
    ensures
        leading_name(t) == name,
    decreases name.len(),
{
    if name.len() == 0 {
        assert(leading_name(t) =~= name);
    } else {
        assert(is_spelled(t[0], name[0]));
        assert(ascii_lower(t[0]) == name[0]);
        let rest = t.drop_first();
        let left = name.drop_first();
        assert forall|i: int| 0 <= i < left.len() implies is_spelled(
            rest[i],
            #[trigger] left[i],
        ) && ('a' <= left[i] <= 'z' || '0' <= left[i] <= '9') by {
            assert(left[i] == name[i + 1]);
            assert(is_spelled(t[i + 1], name[i + 1]));
        }
        if rest.len() > left.len() {
            assert(rest[left.len() as int] == t[name.len() as int]);
        }
        lemma_leading_name(rest, left);
        assert(seq![name[0]] + left =~= name);
    }
}

/// What is read off an element's tag.
proof fn lemma_tag_name(t: Seq<char>, name: Seq<char>, closing: bool)
    requires
        is_plain_name(name),
        is_tag(t, name, closing),
    ensures
        name_of_tag(t) == name,
        is_opening(t) == !closing,
{
    if closing {
        let r = t.drop_first();
        assert forall|i: int| 0 <= i < name.len() implies is_spelled(
            r[i],
            #[trigger] name[i],
        ) by {
            assert(is_spelled(t[1 + i], name[i]));
        }
        if r.len() > name.len() {
            assert(r[name.len() as int] == t[1 + name.len() as int]);
        }
        assert(is_spelled(r[0], name[0]));
        assert(strip_slashes(r) == r);
        assert(strip_slashes(t) == r);
        assert(!is_space(r[0]));
        assert(trim_start(r) == r);
        lemma_leading_name(r, name);
        assert(trim_start(t) == t);
    } else {
        assert(is_spelled(t[0], name[0]));
        assert(strip_slashes(t) == t);
        assert(!is_space(t[0]));
        assert(trim_start(t) == t);
        lemma_leading_name(t, name);
    }
}

/// Text without brackets behind a text that does not end inside a tag goes into the
/// open block.
proof fn lemma_more_text(u: Seq<char>, b: Seq<char>)
    requires
        !inside_tag(u),
        is_bare(b),
    ensures
        !inside_tag(u + b),
        open_text(u + b) == open_text(u) + b,
        open_kind(u + b) == open_kind(u),
        closed_blocks(u + b) == closed_blocks(u),
    decreases b.len(),
{
    let s = u + b;
    if b.len() == 0 {
        assert(s =~= u);
        assert(open_text(u) + b =~= open_text(u));
    } else {
        let d = b.drop_last();
        assert(b.contains(b[b.len() - 1]));
        assert(is_bare(d)) by {
            if d.contains('<') {
                let i = choose|i: int| 0 <= i < d.len() && d[i] == '<';
                assert(b[i] == '<');
            }
            if d.contains('>') {
                let i = choose|i: int| 0 <= i < d.len() && d[i] == '>';
                assert(b[i] == '>');
            }
        }
        lemma_more_text(u, d);
        assert(s.drop_last() =~= u + d);
        assert(s.last() == b.last());
        assert(open_text(s) =~= open_text(u) + b);
    }
}

/// The inside of a tag changes nothing yet.
proof fn lemma_in_tag(a: Seq<char>, t: Seq<char>)
    requires
        !inside_tag(a),
        is_bare(t),
    ensures
        inside_tag(a + seq!['<'] + t),
        last_tag(a + seq!['<'] + t) == t,
        open_text(a + seq!['<'] + t) == open_text(a),
        open_kind(a + seq!['<'] + t) == open_kind(a),
        closed_blocks(a + seq!['<'] + t) == closed_blocks(a),
    decreases t.len(),
{
    let s = a + seq!['<'] + t;
    if t.len() == 0 {
        assert(s.drop_last() =~= a);
        assert(s.last() == '<');
        assert(last_tag(s) =~= t);
    } else {
        let d = t.drop_last();
        assert(t.contains(t[t.len() - 1]));
        assert(is_bare(d)) by {
            if d.contains('<') {
                let i = choose|i: int| 0 <= i < d.len() && d[i] == '<';
                assert(t[i] == '<');
            }
            if d.contains('>') {
                let i = choose|i: int| 0 <= i < d.len() && d[i] == '>';
                assert(t[i] == '>');
            }
        }
        lemma_in_tag(a, d);
        assert(s.drop_last() =~= a + seq!['<'] + d);
        assert(s.last() == t.last());
        assert(d.push(t.last()) =~= t);
    }
}

/// What a whole tag does.
proof fn lemma_tag(a: Seq<char>, t: Seq<char>)
    requires
        !inside_tag(a),
        is_bare(t),
    ensures
        ({
            let u = a + tag(t);
            let name = name_of_tag(t);
            &&& !inside_tag(u)
            &&& is_block_name(name) ==> closed_blocks(u) == blocks_of(a) && open_text(u)
                == Seq::<char>::empty() && open_kind(u) == (if is_opening(t) && name == "li"@ {
                Block::Bullet
            } else {
                Block::Para
            })
            &&& !is_block_name(name) ==> closed_blocks(u) == closed_blocks(a) && open_kind(u)
                == open_kind(a) && open_text(u) == open_text(a).push(
                if name == "br"@ {
                    '\n'
                } else {
                    ' '
                },
            )
        }),
{
    let u = a + tag(t);
    let v = a + seq!['<'] + t;
    lemma_in_tag(a, t);
    assert(u.drop_last() =~= v);
    assert(u.last() == '>');
    assert(last_tag(u) == last_tag(v)) by {
        assert(u.last() == '>');
    }
}

/// A block-level tag ends what stands before it. The text behind it is a block of its
/// own.
proof fn lemma_block_behind(a: Seq<char>, t: Seq<char>, b: Seq<char>)
    requires
        !inside_tag(a),
        is_bare(t),
        is_block_name(name_of_tag(t)),
        is_bare(b),
    ensures
        closed_blocks(a + tag(t) + b) == blocks_of(a),
        open_text(a + tag(t) + b) == b,
        open_kind(a + tag(t) + b) == (if is_opening(t) && name_of_tag(t) == "li"@ {
            Block::Bullet
        } else {
            Block::Para
        }),
        !inside_tag(a + tag(t) + b),
{
    lemma_tag(a, t);
    lemma_more_text(a + tag(t), b);
    assert(Seq::<char>::empty() + b =~= b);
}

/// A text that is not blank makes a block.
proof fn lemma_block_of_words(b: Seq<char>)
    requires
        !is_blank(b),
    ensures
        block_text(b).len() > 0,
{
    let fields = split(b, '\n');
    let g = |l: Seq<char>| single_line_of(l);
    let keep = |l: Seq<char>| l.len() > 0;
    broadcast use vstd::seq_lib::group_filter_ensures;

    let i = choose|i: int| 0 <= i < b.len() && !is_space(#[trigger] b[i]);
    let k = lemma_field_with(b, '\n', i);
    let l = fields[k];
    lemma_words(l);
    assert(!is_blank(l));
    assert(words(l).len() > 0);
    assert(single_line_of(l).len() > 0) by {
        lemma_join_not_empty(words(l), seq![' ']);
    }
    let all = fields.map_values(g);
    assert(all[k] == single_line_of(l));
    assert(keep(all[k]));
    assert(all.filter(keep).contains(all[k]));
    let m = choose|m: int| 0 <= m < all.filter(keep).len() && all.filter(keep)[m] == all[k];
    assert(keep(all.filter(keep)[m]));
    assert forall|q: int| 0 <= q < tidy_lines(b).len() implies (#[trigger] tidy_lines(
        b,
    )[q]).len() > 0 by {
        assert(keep(all.filter(keep)[q]));
    }
    lemma_join_not_empty(tidy_lines(b), seq!['\n']);
}

/// Joined parts are not empty if the first is not.
proof fn lemma_join_not_empty(parts: Seq<Seq<char>>, sep: Seq<char>)
    requires
        parts.len() > 0,
        forall|k: int| 0 <= k < parts.len() ==> (#[trigger] parts[k]).len() > 0,
    ensures
        join(parts, sep).len() > 0,
{
    if parts.len() > 1 {
        assert(parts.last() == parts[parts.len() - 1]);
    }
}

/// A character that is not the separator stands in some field.
pub proof fn lemma_field_with(s: Seq<char>, sep: char, i: int) -> (k: int)
    requires
        0 <= i < s.len(),
        s[i] != sep,
    ensures
        0 <= k < split(s, sep).len(),
        split(s, sep)[k].contains(s[i]),
    decreases s.len(),
{
    let d = s.drop_last();
    let before = split(d, sep);
    lemma_split(d, sep);
    if i < d.len() {
        let k = lemma_field_with(d, sep, i);
        if s.last() != sep && k == before.len() - 1 {
            let f = before[k];
            let j = choose|j: int| 0 <= j < f.len() && f[j] == d[i];
            assert(split(s, sep)[k] == f.push(s.last()));
            assert(split(s, sep)[k][j] == s[i]);
        } else {
            assert(split(s, sep)[k] == before[k]);
        }
        k
    } else {
        let k = before.len() - 1;
        let f = split(s, sep)[k];
        assert(f == before.last().push(s.last()));
        assert(f[f.len() - 1] == s[i]);
        k
    }
}

/// Opening or closing a block-level element starts a new paragraph, wherever in a
/// document it stands: the plain text so far stays, and the text behind the tag
/// follows after a blank line.
pub proof fn blocks_start_paragraphs(
    a: Seq<char>,
    t: Seq<char>,
    name: Seq<char>,
    closing: bool,
    b: Seq<char>,
)
    requires
        tags_closed(a),
        is_bare(t),
        is_tag(t, name, closing),
        is_paragraph(name) || (name == "li"@ && closing),
        is_bare(b),
        !is_blank(b),
    ensures
        plain_text(a).len() > 0 ==> plain_text(a + tag(t) + b) == plain_text(a) + "\n\n"@
            + block_text(b),
        plain_text(a).len() == 0 ==> plain_text(a + tag(t) + b) == block_text(b),
{
    lemma_inside(a);
    lemma_plain_names(name);
    lemma_tag_name(t, name, closing);
    lemma_block_behind(a, t, b);
    lemma_block_of_words(b);
    let s = a + tag(t) + b;
    let bs = blocks_of(a);
    assert(blocks_of(s) == bs.push((Block::Para, block_text(b))));
    assert(bs.push((Block::Para, block_text(b))).drop_last() =~= bs);
    lemma_shown_empty(bs, a);
}

/// A document without plain text has no blocks.
proof fn lemma_shown_empty(bs: Seq<(Block, Seq<char>)>, a: Seq<char>)
    requires
        bs == blocks_of(a),
    ensures
        plain_text(a).len() == 0 <==> bs.len() == 0,
{
    lemma_blocks_filled(a);
    if block_text(open_text(a)).len() > 0 {
        assert(bs[bs.len() - 1].1 == block_text(open_text(a)));
    } else if bs.len() > 0 {
        assert(bs[bs.len() - 1].1.len() > 0);
    }
}

/// No finished block is empty.
proof fn lemma_blocks_filled(s: Seq<char>)
    ensures
        forall|k: int|
            0 <= k < closed_blocks(s).len() ==> (#[trigger] closed_blocks(s)[k]).1.len() > 0,
    decreases s.len(),
{
    if s.len() > 0 {
        let d = s.drop_last();
        lemma_blocks_filled(d);
        let bs = closed_blocks(s);
        assert forall|k: int| 0 <= k < bs.len() implies (#[trigger] bs[k]).1.len() > 0 by {
            if k < closed_blocks(d).len() {
                assert(bs[k] == closed_blocks(d)[k]);
            } else {
                assert(bs[k].1 == block_text(open_text(d)));
            }
        }
    }
}

/// A list item carries a bullet mark. After text that is no list item it follows after
/// a blank line.
pub proof fn items_carry_a_mark(a: Seq<char>, t: Seq<char>, b: Seq<char>)
    requires
        is_bare(a),
        is_bare(t),
        is_tag(t, "li"@, false),
        is_bare(b),
        !is_blank(b),
    ensures
        !is_blank(a) ==> plain_text(a + tag(t) + b) == block_text(a) + "\n\n• "@ + block_text(b),
        is_blank(a) ==> plain_text(a + tag(t) + b) == "• "@ + block_text(b),
{
    let e = Seq::<char>::empty();
    assert(e + a =~= a);
    lemma_more_text(e, a);
    lemma_plain_names("li"@);
    lemma_tag_name(t, "li"@, false);
    lemma_block_behind(a, t, b);
    lemma_block_of_words(b);
    reveal_strlit("\n\n• ");
    reveal_strlit("\n\n");
    reveal_strlit("• ");
    let s = a + tag(t) + b;
    let item = (Block::Bullet, block_text(b));
    if is_blank(a) {
        lemma_blank_block(a);
        assert(blocks_of(a) =~= Seq::empty());
        assert(blocks_of(s) =~= seq![item]);
    } else {
        lemma_block_of_words(a);
        let first = (Block::Para, block_text(a));
        assert(blocks_of(a) =~= seq![first]);
        assert(blocks_of(s) =~= seq![first, item]);
        assert(seq![first, item].drop_last() =~= seq![first]);
        assert(blocks_shown(seq![first]) == block_text(a));
        assert(blocks_shown(seq![first, item]) == block_text(a) + "\n\n"@ + ("• "@ + block_text(
            b,
        )));
        assert(plain_text(s) =~= block_text(a) + "\n\n• "@ + block_text(b));
    }
}

/// Whitespace makes no block.
proof fn lemma_blank_block(a: Seq<char>)
    requires
        is_blank(a),
    ensures
        block_text(a).len() == 0,
{
    block_text_is_tidy(a);
    if block_text(a).len() > 0 {
        let c = block_text(a)[0];
        lemma_block_text_chars(a, c);
        if a.contains(c) {
            let i = choose|i: int| 0 <= i < a.len() && a[i] == c;
            assert(is_space(a[i]));
        }
    }
}

/// List items that follow each other stand one line apart.
pub proof fn items_stand_one_line_apart(
    a: Seq<char>,
    t: Seq<char>,
    b: Seq<char>,
    end: Seq<char>,
    gap: Seq<char>,
    next: Seq<char>,
    c: Seq<char>,
)
    requires
        tags_closed(a),
        is_bare(t),
        is_tag(t, "li"@, false),
        is_bare(b),
        !is_blank(b),
        is_bare(end),
        is_tag(end, "li"@, true),
        is_blank(gap),
        is_bare(next),
        is_tag(next, "li"@, false),
        is_bare(c),
        !is_blank(c),
    ensures
        plain_text(a + tag(t) + b + tag(end) + gap + tag(next) + c) == plain_text(a + tag(t) + b)
            + "\n• "@ + block_text(c),
{
    reveal_strlit("\n• ");
    reveal_strlit("\n");
    reveal_strlit("• ");
    lemma_inside(a);
    lemma_plain_names("li"@);
    lemma_tag_name(t, "li"@, false);
    lemma_tag_name(end, "li"@, true);
    lemma_tag_name(next, "li"@, false);
    let x = a + tag(t) + b;
    lemma_block_behind(a, t, b);
    lemma_block_of_words(b);
    assert(is_bare(gap)) by {
        if gap.contains('<') {
            let i = choose|i: int| 0 <= i < gap.len() && gap[i] == '<';
            assert(is_space(gap[i]));
        }
        if gap.contains('>') {
            let i = choose|i: int| 0 <= i < gap.len() && gap[i] == '>';
            assert(is_space(gap[i]));
        }
    }
    lemma_block_behind(x, end, gap);
    lemma_blank_block(gap);
    let y = x + tag(end) + gap;
    assert(blocks_of(y) == blocks_of(x));
    lemma_block_behind(y, next, c);
    lemma_block_of_words(c);
    let bs = blocks_of(x);
    let item = (Block::Bullet, block_text(c));
    assert(bs.last() == (Block::Bullet, block_text(b)));
    assert(blocks_of(y + tag(next) + c) == bs.push(item));
    assert(bs.push(item).drop_last() =~= bs);
    assert(bs.push(item)[bs.len() - 1] == bs.last());
    assert(plain_text(y + tag(next) + c) =~= plain_text(x) + "\n• "@ + block_text(c));
}

/// A `br` is a line break within its paragraph, and any other tag that is not
/// block-level is a space.
pub proof fn other_tags_stay_in_the_paragraph(
    a: Seq<char>,
    t: Seq<char>,
    name: Seq<char>,
    closing: bool,
    b: Seq<char>,
)
    requires
        is_bare(a),
        is_bare(t),
        is_tag(t, name, closing),
        is_plain_name(name),
        !is_paragraph(name),
        name != "li"@,
        is_bare(b),
    ensures
        name == "br"@ ==> plain_text(a + tag(t) + b) == block_text(a + seq!['\n'] + b),
        name != "br"@ ==> plain_text(a + tag(t) + b) == block_text(a + seq![' '] + b),
{
    let e = Seq::<char>::empty();
    assert(e + a =~= a);
    lemma_more_text(e, a);
    lemma_tag_name(t, name, closing);
    lemma_tag(a, t);
    lemma_more_text(a + tag(t), b);
    let raw = open_text(a + tag(t) + b);
    assert(open_text(a) =~= a);
    assert(a.push('\n') =~= a + seq!['\n']);
    assert(a.push(' ') =~= a + seq![' ']);
    assert(closed_blocks(a + tag(t) + b) =~= Seq::empty());
    if block_text(raw).len() == 0 {
        assert(block_text(raw) =~= e);
    }
}

/// The lines of a paragraph stay apart, each reduced to single spaces, and blank ones
/// are left out.
pub proof fn lines_of_a_paragraph_stay_apart(a: Seq<char>, b: Seq<char>)
    ensures
        !a.contains('\n') ==> block_text(a) == single_line_of(a),
        !is_blank(a) && !is_blank(b) ==> block_text(a + seq!['\n'] + b) == block_text(a)
            + seq!['\n'] + block_text(b),
        is_blank(a) ==> block_text(a + seq!['\n'] + b) == block_text(b),
        is_blank(b) ==> block_text(a + seq!['\n'] + b) == block_text(a),
{
    let g = |l: Seq<char>| single_line_of(l);
    let keep = |l: Seq<char>| l.len() > 0;
    if !a.contains('\n') {
        let one = seq![a];
        assert(one.drop_last() =~= Seq::<Seq<char>>::empty());
        assert(join(one, seq!['\n']) == a);
        join_then_split(one, '\n');
        let line = single_line_of(a);
        assert(one.map_values(g) =~= seq![line]);
        let none = Seq::<Seq<char>>::empty();
        assert(seq![line].filter(keep) =~= if line.len() > 0 {
            seq![line]
        } else {
            none
        }) by {
            reveal(Seq::filter);
            assert(seq![line].drop_last() =~= none);
            assert(none.filter(keep) =~= none);
        }
        assert(block_text(a) =~= line);
    }
    let s = a + seq!['\n'] + b;
    lemma_split_concat(a, b, '\n');
    let x = split(a, '\n').map_values(g);
    let y = split(b, '\n').map_values(g);
    assert(split(s, '\n').map_values(g) =~= x + y);
    Seq::filter_distributes_over_add(x, y, keep);
    assert(tidy_lines(s) == tidy_lines(a) + tidy_lines(b));
    if is_blank(a) {
        lemma_blank_lines(a);
        assert(tidy_lines(s) =~= tidy_lines(b));
    }
    if is_blank(b) {
        lemma_blank_lines(b);
        assert(tidy_lines(s) =~= tidy_lines(a));
    }
    if !is_blank(a) && !is_blank(b) {
        lemma_block_of_words(a);
        lemma_block_of_words(b);
        lemma_join_concat(tidy_lines(a), tidy_lines(b), seq!['\n']);
    }
}

/// A blank text has no tidy lines.
proof fn lemma_blank_lines(a: Seq<char>)
    requires
        is_blank(a),
    ensures
        tidy_lines(a) == Seq::<Seq<char>>::empty(),
{
    lemma_blank_block(a);
    if tidy_lines(a).len() > 0 {
        broadcast use vstd::seq_lib::group_filter_ensures;

        let g = |l: Seq<char>| single_line_of(l);
        let keep = |l: Seq<char>| l.len() > 0;
        let all = split(a, '\n').map_values(g);
        assert forall|q: int| 0 <= q < tidy_lines(a).len() implies (#[trigger] tidy_lines(
            a,
        )[q]).len() > 0 by {
            assert(keep(all.filter(keep)[q]));
        }
        lemma_join_not_empty(tidy_lines(a), seq!['\n']);
    }
    assert(tidy_lines(a) =~= Seq::empty());
}

/// Parts joined to further parts.
pub proof fn lemma_join_concat(a: Seq<Seq<char>>, b: Seq<Seq<char>>, sep: Seq<char>)
    requires
        a.len() > 0,
        b.len() > 0,
    ensures
        join(a + b, sep) == join(a, sep) + sep + join(b, sep),
    decreases b.len(),
{
    let d = b.drop_last();
    assert((a + b).drop_last() =~= a + d);
    if d.len() == 0 {
        assert(a + d =~= a);
    } else {
        lemma_join_concat(a, d, sep);
        assert(join(a + b, sep) =~= join(a, sep) + sep + join(b, sep));
    }
}

/// A paragraph keeps its words, in order.
pub proof fn paragraphs_keep_their_words(s: Seq<char>)
    ensures
        words(block_text(s)) == words(s),
{
    lemma_words_of_lines(split(s, '\n'));
    split_then_join(s, '\n');
    lemma_split(s, '\n');
}

/// Lines reduced to single spaces, without the empty ones, keep their words.
proof fn lemma_words_of_lines(parts: Seq<Seq<char>>)
    ensures
        words(
            join(
                parts.map_values(|l: Seq<char>| single_line_of(l)).filter(
                    |l: Seq<char>| l.len() > 0,
                ),
                seq!['\n'],
            ),
        ) == words(join(parts, seq!['\n'])),
    decreases parts.len(),
{
    let g = |l: Seq<char>| single_line_of(l);
    let keep = |l: Seq<char>| l.len() > 0;
    let nl = seq!['\n'];
    reveal(Seq::filter);
    let all = parts.map_values(g);
    if parts.len() == 0 {
        assert(all.filter(keep) =~= parts);
    } else {
        let d = parts.drop_last();
        let l = parts[parts.len() - 1];
        let line = single_line_of(l);
        let front = d.map_values(g).filter(keep);
        lemma_words_of_lines(d);
        assert(all.drop_last() =~= d.map_values(g));
        assert(all.last() == line);
        lemma_words(l);
        lemma_words_of_join(words(l));
        assert(words(line) == words(l));
        let t = join(d, nl);
        let u = join(front, nl);
        lemma_words_space(t, '\n');
        lemma_words_space(u, '\n');
        lemma_words_concat(t + nl, l);
        lemma_words_concat(u + nl, line);
        let whole = join(parts, nl);
        if d.len() == 0 {
            assert(words(t) =~= Seq::empty());
            assert(whole == l);
            assert(front =~= Seq::empty());
        }
        assert(words(whole) =~= words(t) + words(l));
        let kept = all.filter(keep);
        if line.len() == 0 {
            assert(kept == front);
            assert(words(line) =~= Seq::empty());
            assert(words(t) + words(l) =~= words(u));
        } else {
            assert(kept == front.push(line));
            if front.len() == 0 {
                assert(u =~= Seq::empty());
                assert(words(u) =~= Seq::empty());
                assert(kept =~= seq![line]);
                assert(join(kept, nl) == line);
            } else {
                lemma_join_push(front, line, nl);
            }
            assert(words(join(kept, nl)) =~= words(u) + words(line));
        }
    }
}

// ---------------------------------------------------------------------------
// What goes on behind a tag
// ---------------------------------------------------------------------------

/// Whether every `>` of a text ends a tag that starts in the text.
pub open spec fn ends_its_own_tags(z: Seq<char>) -> bool {
    forall|i: int|
        0 <= i < z.len() && #[trigger] z[i] == '>' ==> exists|j: int|
            0 <= j < i && #[trigger] z[j] == '<' && forall|k: int| j < k < i ==> z[k] != '>'
}

/// Whether two documents have come to the same point.
spec fn is_same_course(u: Seq<char>, v: Seq<char>) -> bool {
    &&& closed_blocks(u) == closed_blocks(v)
    &&& open_text(u) == open_text(v)
    &&& open_kind(u) == open_kind(v)
    &&& inside_tag(u) == inside_tag(v)
    &&& inside_tag(u) ==> last_tag(u) == last_tag(v)
}

/// Documents that have come to the same point go on alike.
proof fn lemma_same_course(u: Seq<char>, v: Seq<char>, z: Seq<char>)
    requires
        is_same_course(u, v),
        ends_its_own_tags(z),
    ensures
        is_same_course(u + z, v + z),
    decreases z.len(),
{
    if z.len() == 0 {
        assert(u + z =~= u);
        assert(v + z =~= v);
    } else {
        let d = z.drop_last();
        let c = z.last();
        assert(ends_its_own_tags(d)) by {
            assert forall|i: int| 0 <= i < d.len() && #[trigger] d[i] == '>' implies exists|j: int|
                0 <= j < i && #[trigger] d[j] == '<' && forall|k: int|
                    j < k < i ==> d[k] != '>' by {
                assert(z[i] == '>');
                let j = choose|j: int|
                    0 <= j < i && #[trigger] z[j] == '<' && forall|k: int|
                        j < k < i ==> z[k] != '>';
                assert(d[j] == '<');
                assert forall|k: int| j < k < i implies d[k] != '>' by {
                    assert(d[k] == z[k]);
                }
            }
        }
        lemma_same_course(u, v, d);
        let a = u + d;
        let b = v + d;
        assert((u + z).drop_last() =~= a);
        assert((v + z).drop_last() =~= b);
        assert((u + z).last() == c);
        assert((v + z).last() == c);
        if c == '>' {
            let n = z.len() - 1;
            assert(z[n] == '>');
            let j = choose|j: int|
                0 <= j < n && #[trigger] z[j] == '<' && forall|k: int| j < k < n ==> z[k] != '>';
            lemma_inside(a);
            assert(a[u.len() + j] == '<');
            assert(!tags_closed(a)) by {
                if tags_closed(a) {
                    let k = choose|k: int| u.len() + j < k < a.len() && #[trigger] a[k] == '>';
                    assert(z[k - u.len()] == '>');
                }
            }
        }
    }
}

/// A `br` is a line break wherever in a document it stands: the document reads as it does
/// with a line feed in its place.
pub proof fn breaks_read_as_line_feeds(a: Seq<char>, t: Seq<char>, closing: bool, z: Seq<char>)
    requires
        tags_closed(a),
        is_bare(t),
        is_tag(t, "br"@, closing),
        ends_its_own_tags(z),
    ensures
        plain_text(a + tag(t) + z) == plain_text(a + seq!['\n'] + z),
{
    lemma_inside(a);
    lemma_plain_names("br"@);
    lemma_tag_name(t, "br"@, closing);
    lemma_tag(a, t);
    lemma_no_block("br"@);
    assert(is_bare(seq!['\n']));
    lemma_more_text(a, seq!['\n']);
    assert(open_text(a).push('\n') =~= open_text(a) + seq!['\n']);
    lemma_same_course(a + tag(t), a + seq!['\n'], z);
}

/// A tag that is neither block-level nor a `br` is a space wherever in a document it
/// stands: it separates words, and breaks no line.
pub proof fn inline_tags_read_as_spaces(
    a: Seq<char>,
    t: Seq<char>,
    name: Seq<char>,
    closing: bool,
    z: Seq<char>,
)
    requires
        tags_closed(a),
        is_bare(t),
        is_tag(t, name, closing),
        is_plain_name(name),
        !is_paragraph(name),
        name != "li"@,
        name != "br"@,
        ends_its_own_tags(z),
    ensures
        plain_text(a + tag(t) + z) == plain_text(a + seq![' '] + z),
{
    lemma_inside(a);
    lemma_tag_name(t, name, closing);
    lemma_tag(a, t);
    assert(is_bare(seq![' ']));
    lemma_more_text(a, seq![' ']);
    assert(open_text(a).push(' ') =~= open_text(a) + seq![' ']);
    lemma_same_course(a + tag(t), a + seq![' '], z);
}

/// A `br` starts no block.
proof fn lemma_no_block(name: Seq<char>)
    requires
        name == "br"@,
    ensures
        !is_block_name(name),
{
    reveal_strlit("p");
    reveal_strlit("div");
    reveal_strlit("li");
    reveal_strlit("br");
    reveal_strlit("ul");
    reveal_strlit("ol");
    reveal_strlit("tr");
    reveal_strlit("table");
    reveal_strlit("section");
    reveal_strlit("article");
    reveal_strlit("header");
    reveal_strlit("footer");
    reveal_strlit("blockquote");
    reveal_strlit("hr");
    reveal_strlit("h1");
    reveal_strlit("h2");
    reveal_strlit("h3");
    reveal_strlit("h4");
    reveal_strlit("h5");
    reveal_strlit("h6");
    assert("br"@[0] == 'b' && "br"@[1] == 'r' && "br"@.len() == 2);
    assert("ul"@[0] == 'u' && "ol"@[0] == 'o' && "tr"@[0] == 't' && "hr"@[0] == 'h' && "li"@[0]
        == 'l');
    assert("h1"@[0] == 'h' && "h2"@[0] == 'h' && "h3"@[0] == 'h' && "h4"@[0] == 'h' && "h5"@[0]
        == 'h' && "h6"@[0] == 'h');
    assert("p"@.len() == 1 && "div"@.len() == 3 && "table"@.len() == 5 && "section"@.len() == 7);
    assert("article"@.len() == 7 && "header"@.len() == 6 && "footer"@.len() == 6);
    assert("blockquote"@.len() == 10);
}

/// Whether a tag ends the block before it: that of a paragraph, or of a list item.
pub open spec fn ends_blocks(t: Seq<char>, name: Seq<char>, closing: bool) -> bool {
    is_bare(t) && is_tag(t, name, closing) && (is_paragraph(name) || name == "li"@)
}

/// A block-level element without text leaves no trace: whitespace between two such tags
/// is no block.
pub proof fn empty_blocks_leave_no_trace(
    a: Seq<char>,
    t: Seq<char>,
    name: Seq<char>,
    closing: bool,
    gap: Seq<char>,
    u: Seq<char>,
    other: Seq<char>,
    ending: bool,
    z: Seq<char>,
)
    requires
        tags_closed(a),
        ends_blocks(t, name, closing),
        is_blank(gap),
        ends_blocks(u, other, ending),
        ends_its_own_tags(z),
    ensures
        plain_text(a + tag(t) + gap + tag(u) + z) == plain_text(a + tag(u) + z),
{
    lemma_inside(a);
    lemma_plain_names(name);
    lemma_plain_names(other);
    lemma_tag_name(t, name, closing);
    lemma_tag_name(u, other, ending);
    assert(is_bare(gap)) by {
        if gap.contains('<') {
            let i = choose|i: int| 0 <= i < gap.len() && gap[i] == '<';
            assert(is_space(gap[i]));
        }
        if gap.contains('>') {
            let i = choose|i: int| 0 <= i < gap.len() && gap[i] == '>';
            assert(is_space(gap[i]));
        }
    }
    lemma_block_behind(a, t, gap);
    lemma_blank_block(gap);
    let x = a + tag(t) + gap;
    assert(blocks_of(x) == blocks_of(a));
    lemma_tag(x, u);
    lemma_tag(a, u);
    lemma_same_course(x + tag(u), a + tag(u), z);
}

/// A list item behind a paragraph follows after a blank line, with its mark, wherever in a
/// document the two stand.
pub proof fn items_follow_paragraphs(
    a: Seq<char>,
    t: Seq<char>,
    name: Seq<char>,
    closing: bool,
    b: Seq<char>,
    u: Seq<char>,
    c: Seq<char>,
)
    requires
        tags_closed(a),
        is_bare(t),
        is_tag(t, name, closing),
        is_paragraph(name) || (name == "li"@ && closing),
        is_bare(b),
        !is_blank(b),
        is_bare(u),
        is_tag(u, "li"@, false),
        is_bare(c),
        !is_blank(c),
    ensures
        plain_text(a + tag(t) + b + tag(u) + c) == plain_text(a + tag(t) + b) + "\n\n• "@
            + block_text(c),
{
    reveal_strlit("\n\n• ");
    reveal_strlit("\n\n");
    reveal_strlit("• ");
    lemma_inside(a);
    lemma_plain_names(name);
    lemma_plain_names("li"@);
    lemma_tag_name(t, name, closing);
    lemma_tag_name(u, "li"@, false);
    let x = a + tag(t) + b;
    lemma_block_behind(a, t, b);
    lemma_block_of_words(b);
    lemma_block_behind(x, u, c);
    lemma_block_of_words(c);
    let bs = blocks_of(x);
    let item = (Block::Bullet, block_text(c));
    assert(bs.last() == (Block::Para, block_text(b)));
    assert(blocks_of(x + tag(u) + c) == bs.push(item));
    assert(bs.push(item).drop_last() =~= bs);
    assert(bs.push(item)[bs.len() - 1] == bs.last());
    assert(plain_text(x + tag(u) + c) =~= plain_text(x) + "\n\n• "@ + block_text(c));
}

/// A list item whose end is left out ends where the next one starts.
pub proof fn items_end_where_the_next_starts(
    a: Seq<char>,
    t: Seq<char>,
    b: Seq<char>,
    u: Seq<char>,
    c: Seq<char>,
)
    requires
        tags_closed(a),
        is_bare(t),
        is_tag(t, "li"@, false),
        is_bare(b),
        !is_blank(b),
        is_bare(u),
        is_tag(u, "li"@, false),
        is_bare(c),
        !is_blank(c),
    ensures
        plain_text(a + tag(t) + b + tag(u) + c) == plain_text(a + tag(t) + b) + "\n• "@
            + block_text(c),
{
    reveal_strlit("\n• ");
    reveal_strlit("\n");
    reveal_strlit("• ");
    lemma_inside(a);
    lemma_plain_names("li"@);
    lemma_tag_name(t, "li"@, false);
    lemma_tag_name(u, "li"@, false);
    let x = a + tag(t) + b;
    lemma_block_behind(a, t, b);
    lemma_block_of_words(b);
    lemma_block_behind(x, u, c);
    lemma_block_of_words(c);
    let bs = blocks_of(x);
    let item = (Block::Bullet, block_text(c));
    assert(bs.last() == (Block::Bullet, block_text(b)));
    assert(blocks_of(x + tag(u) + c) == bs.push(item));
    assert(bs.push(item).drop_last() =~= bs);
    assert(bs.push(item)[bs.len() - 1] == bs.last());
    assert(plain_text(x + tag(u) + c) =~= plain_text(x) + "\n• "@ + block_text(c));
}

/// The elements that end a line are the block-level ones and `br`.
pub proof fn block_elements_and_br_end_lines(name: Seq<char>)
    ensures
        is_break_name(name) <==> is_paragraph(name) || name == "li"@ || name == "br"@,
{
}

// ---------------------------------------------------------------------------
// Brackets without a partner
// ---------------------------------------------------------------------------

/// A tag that does not end hides what it holds, and nothing else.
pub proof fn tags_without_an_end_are_left_out(a: Seq<char>, t: Seq<char>)
    requires
        tags_closed(a),
        is_bare(t),
    ensures
        plain_text(a + seq!['<'] + t) == plain_text(a),
{
    lemma_inside(a);
    lemma_in_tag(a, t);
}

/// A text without tags has no last tag.
proof fn lemma_no_last_tag(a: Seq<char>)
    requires
        !a.contains('<'),
    ensures
        last_tag(a) == Seq::<char>::empty(),
        !inside_tag(a),
    decreases a.len(),
{
    if a.len() > 0 {
        let d = a.drop_last();
        assert(a.contains(a[a.len() - 1]));
        assert(!d.contains('<')) by {
            if d.contains('<') {
                let i = choose|i: int| 0 <= i < d.len() && d[i] == '<';
                assert(a[i] == '<');
            }
        }
        lemma_no_last_tag(d);
    }
}

/// A `>` in front of the first tag reads as a space.
pub proof fn ends_without_a_tag_read_as_spaces(a: Seq<char>, z: Seq<char>)
    requires
        !a.contains('<'),
        ends_its_own_tags(z),
    ensures
        plain_text(a + seq!['>'] + z) == plain_text(a + seq![' '] + z),
{
    lemma_no_last_tag(a);
    let u = a + seq!['>'];
    let v = a + seq![' '];
    assert(u.drop_last() =~= a);
    assert(v.drop_last() =~= a);
    assert(last_tag(u) == Seq::<char>::empty());
    lemma_nameless();
    lemma_same_course(u, v, z);
}

/// A tag without a name is neither block-level nor a `br`.
proof fn lemma_nameless()
    ensures
        !is_block_name(name_of_tag(Seq::empty())),
        name_of_tag(Seq::empty()) != "br"@,
{
    let e = Seq::<char>::empty();
    assert(strip_slashes(e) == e);
    assert(trim_start(e) == e);
    assert(name_of_tag(e) == e);
    reveal_strlit("p");
    reveal_strlit("div");
    reveal_strlit("li");
    reveal_strlit("br");
    reveal_strlit("ul");
    reveal_strlit("ol");
    reveal_strlit("tr");
    reveal_strlit("table");
    reveal_strlit("section");
    reveal_strlit("article");
    reveal_strlit("header");
    reveal_strlit("footer");
    reveal_strlit("blockquote");
    reveal_strlit("hr");
    reveal_strlit("h1");
    reveal_strlit("h2");
    reveal_strlit("h3");
    reveal_strlit("h4");
    reveal_strlit("h5");
    reveal_strlit("h6");
    assert("p"@.len() == 1 && "div"@.len() == 3 && "li"@.len() == 2 && "ul"@.len() == 2);
    assert("ol"@.len() == 2 && "tr"@.len() == 2 && "table"@.len() == 5 && "section"@.len() == 7);
    assert("article"@.len() == 7 && "header"@.len() == 6 && "footer"@.len() == 6);
    assert("blockquote"@.len() == 10 && "hr"@.len() == 2 && "h1"@.len() == 2);
    assert("h2"@.len() == 2 && "h3"@.len() == 2 && "h4"@.len() == 2 && "h5"@.len() == 2);
    assert("h6"@.len() == 2 && "br"@.len() == 2);
}

/// A `>` behind a tag that has ended ends the tag once more.
pub proof fn ends_behind_a_tag_end_it_again(
    a: Seq<char>,
    t: Seq<char>,
    b: Seq<char>,
    z: Seq<char>,
)
    requires
        tags_closed(a),
        is_bare(t),
        is_bare(b),
        ends_its_own_tags(z),
    ensures
        plain_text(a + tag(t) + b + seq!['>'] + z) == plain_text(a + tag(t) + b + tag(t) + z),
{
    lemma_inside(a);
    lemma_tag(a, t);
    let x = a + tag(t) + b;
    lemma_last_tag_behind(a + tag(t), b);
    lemma_more_text(a + tag(t), b);
    let u = x + seq!['>'];
    assert(u.drop_last() =~= x);
    assert(last_tag(u) == last_tag(x));
    lemma_last_tag_ended(a, t);
    lemma_tag(x, t);
    lemma_last_tag_ended(x, t);
    lemma_same_course(u, x + tag(t), z);
}

/// Text behind a tag leaves it the last one.
proof fn lemma_last_tag_behind(u: Seq<char>, b: Seq<char>)
    requires
        !inside_tag(u),
        is_bare(b),
    ensures
        last_tag(u + b) == last_tag(u),
        !inside_tag(u + b),
    decreases b.len(),
{
    if b.len() == 0 {
        assert(u + b =~= u);
    } else {
        let d = b.drop_last();
        assert(b.contains(b[b.len() - 1]));
        assert(is_bare(d)) by {
            if d.contains('<') {
                let i = choose|i: int| 0 <= i < d.len() && d[i] == '<';
                assert(b[i] == '<');
            }
            if d.contains('>') {
                let i = choose|i: int| 0 <= i < d.len() && d[i] == '>';
                assert(b[i] == '>');
            }
        }
        lemma_last_tag_behind(u, d);
        assert((u + b).drop_last() =~= u + d);
    }
}

/// The last tag behind a tag is that tag.
proof fn lemma_last_tag_ended(a: Seq<char>, t: Seq<char>)
    requires
        !inside_tag(a),
        is_bare(t),
    ensures
        last_tag(a + tag(t)) == t,
{
    lemma_in_tag(a, t);
    assert((a + tag(t)).drop_last() =~= a + seq!['<'] + t);
}

// ---------------------------------------------------------------------------
// Names of tags
// ---------------------------------------------------------------------------

/// A tag has the name that stands in it first, in small letters, whatever slashes and
/// whitespace stand before it and whatever follows.
pub proof fn tags_are_named_by_their_first_word(
    slashes: Seq<char>,
    gap: Seq<char>,
    t: Seq<char>,
    name: Seq<char>,
)
    requires
        forall|i: int| 0 <= i < slashes.len() ==> #[trigger] slashes[i] == '/',
        is_blank(gap),
        is_plain_name(name),
        is_tag(t, name, false),
    ensures
        name_of_tag(slashes + gap + t) == name,
    decreases slashes.len(),
{
    let s = slashes + gap + t;
    assert(is_spelled(t[0], name[0]));
    if slashes.len() > 0 {
        assert(s[0] == '/');
        assert(s.drop_first() =~= slashes.drop_first() + gap + t);
        assert forall|i: int| 0 <= i < slashes.drop_first().len() implies
            #[trigger] slashes.drop_first()[i] == '/' by {
            assert(slashes[i + 1] == '/');
        }
        tags_are_named_by_their_first_word(slashes.drop_first(), gap, t, name);
    } else {
        assert(s =~= gap + t);
        if gap.len() > 0 {
            assert(is_space(gap[0]));
            assert(s[0] == gap[0]);
        } else {
            assert(s[0] == t[0]);
        }
        assert(strip_slashes(s) == s);
        lemma_leading_space(gap, t);
        lemma_leading_name(t, name);
    }
}

/// Whitespace in front of a text that starts with something else is trimmed off.
proof fn lemma_leading_space(gap: Seq<char>, t: Seq<char>)
    requires
        is_blank(gap),
        t.len() > 0,
        !is_space(t[0]),
    ensures
        trim_start(gap + t) == t,
    decreases gap.len(),
{
    if gap.len() == 0 {
        assert(gap + t =~= t);
    } else {
        let d = gap.drop_first();
        assert forall|i: int| 0 <= i < d.len() implies is_space(#[trigger] d[i]) by {
            assert(d[i] == gap[i + 1]);
        }
        assert(is_space(gap[0]));
        assert((gap + t)[0] == gap[0]);
        assert((gap + t).drop_first() =~= d + t);
        lemma_leading_space(d, t);
    }
}

/// A tag that starts with no letter or digit, but for slashes and whitespace, has no
/// name.
pub proof fn other_tags_have_no_name(t: Seq<char>)
    requires
        t.len() == 0 || (t[0] != '/' && !is_space(t[0]) && !is_ascii_alnum(t[0])),
    ensures
        name_of_tag(t) == Seq::<char>::empty(),
{
}

/// A tag is a closing one if and only if a slash is the first in it, but for whitespace.
pub proof fn slashes_close(gap: Seq<char>, t: Seq<char>)
    requires
        is_blank(gap),
        t.len() > 0,
        !is_space(t[0]),
    ensures
        is_opening(gap + t) <==> t[0] != '/',
{
    lemma_leading_space(gap, t);
}

} // verus!
