//! What holds of the plain text that a description is reduced to.

use vstd::prelude::*;

use crate::html::decoded;
use crate::normalize::{
    block_shown, block_text, blocks_of, blocks_shown, cleaned, closed_blocks, ends_block,
    inside_tag, is_block_name, last_tag, name_of_tag, open_kind, open_text, plain_text,
    remote_flag, tidy_lines, with_block, Block,
};
use crate::text::is_space;
use crate::text::words::{
    is_word, join, join_then_split, lemma_join_extend, lemma_join_push, lemma_split,
    lemma_split_chars, lemma_words, lemma_words_append, lemma_words_of_join, lemma_words_of_word,
    single_line_of, split, split_then_join, words,
};

verus! {

// ---------------------------------------------------------------------------
// Which characters can appear
// ---------------------------------------------------------------------------

/// The characters of a word of `s` stand in `s`.
proof fn lemma_words_chars(s: Seq<char>, k: int, c: char)
    requires
        0 <= k < words(s).len(),
        words(s)[k].contains(c),
    ensures
        s.contains(c),
    decreases s.len(),
{
    let d = s.drop_last();
    let w = words(s)[k];
    let i = choose|i: int| 0 <= i < w.len() && w[i] == c;
    let before = words(d);
    if is_space(s.last()) {
        lemma_words_chars(d, k, c);
    } else if s.len() == 1 || is_space(s[s.len() - 2]) {
        if k < before.len() {
            assert(words(s)[k] == before[k]);
            lemma_words_chars(d, k, c);
        } else {
            assert(c == s[s.len() - 1]);
        }
    } else {
        assert(d.last() == s[s.len() - 2]);
        lemma_words(d);
        if k < before.len() - 1 {
            assert(words(s)[k] == before[k]);
            lemma_words_chars(d, k, c);
        } else {
            assert(w == before.last().push(s.last()));
            if i < before.last().len() {
                assert(before[before.len() - 1][i] == c);
                assert(before[before.len() - 1].contains(c));
                lemma_words_chars(d, before.len() - 1, c);
            } else {
                assert(c == s[s.len() - 1]);
            }
        }
    }
    if d.contains(c) {
        let j = choose|j: int| 0 <= j < d.len() && d[j] == c;
        assert(s[j] == c);
    }
}

/// A character of joined parts stands in the separator or in a part.
proof fn lemma_join_chars(parts: Seq<Seq<char>>, sep: Seq<char>, c: char)
    requires
        join(parts, sep).contains(c),
    ensures
        sep.contains(c) || exists|k: int| 0 <= k < parts.len() && (#[trigger] parts[k]).contains(c),
    decreases parts.len(),
{
    let s = join(parts, sep);
    let i = choose|i: int| 0 <= i < s.len() && s[i] == c;
    if parts.len() == 1 {
        assert(parts[0].contains(c));
    } else if parts.len() > 1 {
        let front = parts.drop_last();
        let f = join(front, sep);
        if i < f.len() {
            assert(f[i] == c);
            lemma_join_chars(front, sep, c);
            if !sep.contains(c) {
                let k = choose|k: int| 0 <= k < front.len() && (#[trigger] front[k]).contains(c);
                assert(parts[k].contains(c));
            }
        } else if i < f.len() + sep.len() {
            assert(sep[i - f.len()] == c);
        } else {
            assert(parts.last()[i - f.len() - sep.len()] == c);
            assert(parts[parts.len() - 1].contains(c));
        }
    }
}

/// Every tidy line is the single line of some field of the text, and not empty.
proof fn lemma_tidy_line(s: Seq<char>, k: int) -> (f: int)
    requires
        0 <= k < tidy_lines(s).len(),
    ensures
        0 <= f < split(s, '\n').len(),
        tidy_lines(s)[k] == single_line_of(split(s, '\n')[f]),
        tidy_lines(s)[k].len() > 0,
{
    broadcast use vstd::seq_lib::group_filter_ensures;

    let g = |l: Seq<char>| single_line_of(l);
    let keep = |l: Seq<char>| l.len() > 0;
    let all = split(s, '\n').map_values(g);
    assert(keep(all.filter(keep)[k]));
    all.lemma_filter_contains_rev(keep, all.filter(keep)[k]);
    assert(all.contains(tidy_lines(s)[k]));
    let f = choose|f: int| 0 <= f < all.len() && all[f] == tidy_lines(s)[k];
    f
}

/// A block's text holds spaces, line breaks, and characters of what it was made
/// from.
pub proof fn lemma_block_text_chars(s: Seq<char>, c: char)
    requires
        block_text(s).contains(c),
    ensures
        c == ' ' || c == '\n' || s.contains(c),
{
    lemma_join_chars(tidy_lines(s), seq!['\n'], c);
    if c != '\n' {
        assert(!seq!['\n'].contains(c));
        let k = choose|k: int|
            0 <= k < tidy_lines(s).len() && (#[trigger] tidy_lines(s)[k]).contains(c);
        let f = lemma_tidy_line(s, k);
        let field = split(s, '\n')[f];
        lemma_join_chars(words(field), seq![' '], c);
        if c != ' ' {
            assert(!seq![' '].contains(c));
            let w = choose|w: int|
                0 <= w < words(field).len() && (#[trigger] words(field)[w]).contains(c);
            lemma_words_chars(field, w, c);
            lemma_split_chars(s, '\n', f, c);
        }
    }
}

/// The text between tags never holds an angle bracket.
proof fn lemma_open_text_chars(s: Seq<char>)
    ensures
        !open_text(s).contains('<'),
        !open_text(s).contains('>'),
    decreases s.len(),
{
    if s.len() > 0 && !ends_block(s) {
        let d = s.drop_last();
        lemma_open_text_chars(d);
        let t = open_text(s);
        let before = open_text(d);
        if t.contains('<') {
            let i = choose|i: int| 0 <= i < t.len() && t[i] == '<';
            if i < before.len() {
                assert(before[i] == '<');
                assert(before.contains('<'));
            }
        }
        if t.contains('>') {
            let i = choose|i: int| 0 <= i < t.len() && t[i] == '>';
            if i < before.len() {
                assert(before[i] == '>');
                assert(before.contains('>'));
            }
        }
    }
}

/// Whether no block holds an angle bracket.
spec fn bracket_free(bs: Seq<(Block, Seq<char>)>) -> bool {
    forall|k: int|
        0 <= k < bs.len() ==> !(#[trigger] bs[k]).1.contains('<') && !bs[k].1.contains('>')
}

/// A further block keeps the list free of angle brackets.
proof fn lemma_with_block_chars(bs: Seq<(Block, Seq<char>)>, kind: Block, s: Seq<char>)
    requires
        bracket_free(bs),
    ensures
        bracket_free(with_block(bs, kind, open_text(s))),
{
    let raw = open_text(s);
    lemma_open_text_chars(s);
    if block_text(raw).contains('<') {
        lemma_block_text_chars(raw, '<');
    }
    if block_text(raw).contains('>') {
        lemma_block_text_chars(raw, '>');
    }
}

/// The finished blocks hold no angle brackets.
proof fn lemma_closed_blocks_chars(s: Seq<char>)
    ensures
        bracket_free(closed_blocks(s)),
    decreases s.len(),
{
    if s.len() > 0 {
        let d = s.drop_last();
        lemma_closed_blocks_chars(d);
        lemma_with_block_chars(closed_blocks(d), open_kind(d), d);
    }
}

/// Showing blocks adds no angle brackets.
proof fn lemma_shown_chars(bs: Seq<(Block, Seq<char>)>, c: char)
    requires
        bracket_free(bs),
        c == '<' || c == '>',
    ensures
        !blocks_shown(bs).contains(c),
    decreases bs.len(),
{
    reveal_strlit("• ");
    reveal_strlit("\n");
    reveal_strlit("\n\n");
    if bs.len() > 0 {
        let last = bs[bs.len() - 1];
        let shown = block_shown(last);
        let t = blocks_shown(bs);
        assert(!shown.contains(c)) by {
            if shown.contains(c) {
                let i = choose|i: int| 0 <= i < shown.len() && shown[i] == c;
                if last.0 == Block::Bullet {
                    if i >= 2 {
                        assert(last.1[i - 2] == c);
                        assert(last.1.contains(c));
                    }
                }
            }
        }
        if bs.len() > 1 {
            let front = bs.drop_last();
            assert(bracket_free(front)) by {
                assert forall|k: int| 0 <= k < front.len() implies !(#[trigger] front[k]).1.contains(
                    '<',
                ) && !front[k].1.contains('>') by {
                    assert(front[k] == bs[k]);
                }
            }
            lemma_shown_chars(front, c);
            let f = blocks_shown(front);
            if t.contains(c) {
                let i = choose|i: int| 0 <= i < t.len() && t[i] == c;
                if i < f.len() {
                    assert(f[i] == c);
                    assert(f.contains(c));
                } else if i >= t.len() - shown.len() {
                    assert(shown[i - (t.len() - shown.len())] == c);
                    assert(shown.contains(c));
                }
            }
        }
    }
}

/// Plain text holds no angle brackets: no tag, and no piece of one, survives.
pub proof fn plain_text_has_no_markup(s: Seq<char>)
    ensures
        !plain_text(s).contains('<'),
        !plain_text(s).contains('>'),
{
    lemma_closed_blocks_chars(s);
    lemma_with_block_chars(closed_blocks(s), open_kind(s), s);
    lemma_shown_chars(blocks_of(s), '<');
    lemma_shown_chars(blocks_of(s), '>');
}

// ---------------------------------------------------------------------------
// Whitespace
// ---------------------------------------------------------------------------

/// Whether a text is tidy: it neither starts nor ends with whitespace; the only
/// whitespace is spaces and line breaks; two whitespace characters meet only as
/// two line breaks; and three never meet.
pub open spec fn is_tidy(t: Seq<char>) -> bool {
    &&& t.len() > 0 ==> !is_space(t[0]) && !is_space(t.last())
    &&& forall|i: int| 0 <= i < t.len() && is_space(#[trigger] t[i]) ==> t[i] == ' ' || t[i] == '\n'
    &&& forall|i: int|
        0 <= i < t.len() - 1 && is_space(#[trigger] t[i]) && is_space(t[i + 1]) ==> t[i] == '\n'
            && t[i + 1] == '\n'
    &&& forall|i: int|
        0 <= i < t.len() - 2 && is_space(#[trigger] t[i]) && is_space(t[i + 1]) ==> !is_space(t[i + 2])
}

/// A separator between tidy texts: a space, a line break, or two line breaks.
spec fn is_separator(sep: Seq<char>) -> bool {
    sep == seq![' '] || sep == seq!['\n'] || sep == seq!['\n', '\n']
}

/// A word is tidy.
proof fn lemma_word_is_tidy(w: Seq<char>)
    requires
        is_word(w),
    ensures
        is_tidy(w),
{
    assert(!is_space(w[0]));
    assert(!is_space(w[w.len() - 1]));
}

/// Two tidy texts with a separator between are tidy.
proof fn lemma_tidy_pair(a: Seq<char>, sep: Seq<char>, b: Seq<char>)
    requires
        is_tidy(a),
        a.len() > 0,
        is_tidy(b),
        b.len() > 0,
        is_separator(sep),
    ensures
        is_tidy(a + sep + b),
{
    let t = a + sep + b;
    let n = a.len() as int;
    let m = n + sep.len();
    assert forall|i: int| 0 <= i < n implies #[trigger] t[i] == a[i] by {}
    assert forall|i: int| m <= i < t.len() implies #[trigger] t[i] == b[i - m] by {}
    assert(!is_space(t[n - 1])) by {
        assert(t[n - 1] == a.last());
    }
    assert(!is_space(t[m])) by {
        assert(t[m] == b[0]);
    }
    assert(t[n] == sep[0]);
    if sep.len() == 2 {
        assert(t[n + 1] == sep[1]);
    }
    assert(t[0] == a[0]);
    assert(t.last() == b.last());
    assert forall|i: int| 0 <= i < t.len() && is_space(#[trigger] t[i]) implies t[i] == ' ' || t[i]
        == '\n' by {
        if i < n {
            assert(is_space(a[i]));
        } else if i >= m {
            assert(is_space(b[i - m]));
        } else if i == n + 1 {
            assert(t[i] == sep[1]);
        }
    }
    assert forall|i: int|
        0 <= i < t.len() - 1 && is_space(#[trigger] t[i]) && is_space(t[i + 1]) implies t[i] == '\n'
        && t[i + 1] == '\n' by {
        if i < n - 1 {
            assert(is_space(a[i]) && is_space(a[i + 1]));
        } else if i >= m {
            assert(is_space(b[i - m]) && is_space(b[i - m + 1]));
        } else if i == n {
            if sep.len() == 2 {
                assert(t[i + 1] == sep[1]);
            }
        }
    }
    assert forall|i: int|
        0 <= i < t.len() - 2 && is_space(#[trigger] t[i]) && is_space(t[i + 1]) implies !is_space(
        t[i + 2],
    ) by {
        if i < n - 2 {
            assert(is_space(a[i]) && is_space(a[i + 1]));
            assert(t[i + 2] == a[i + 2]);
        } else if i >= m {
            assert(is_space(b[i - m]) && is_space(b[i - m + 1]));
            assert(t[i + 2] == b[i - m + 2]);
        }
    }
}

/// Tidy parts joined by a separator are tidy.
proof fn lemma_tidy_join(parts: Seq<Seq<char>>, sep: Seq<char>)
    requires
        is_separator(sep),
        forall|k: int| 0 <= k < parts.len() ==> is_tidy(#[trigger] parts[k]) && parts[k].len() > 0,
    ensures
        is_tidy(join(parts, sep)),
        parts.len() > 0 ==> join(parts, sep).len() > 0,
    decreases parts.len(),
{
    if parts.len() == 1 {
        assert(is_tidy(parts[0]));
    } else if parts.len() > 1 {
        let front = parts.drop_last();
        assert forall|k: int| 0 <= k < front.len() implies is_tidy(#[trigger] front[k])
            && front[k].len() > 0 by {
            assert(front[k] == parts[k]);
        }
        lemma_tidy_join(front, sep);
        assert(is_tidy(parts[parts.len() - 1]));
        lemma_tidy_pair(join(front, sep), sep, parts.last());
    }
}

/// The text of a block is tidy.
pub proof fn block_text_is_tidy(s: Seq<char>)
    ensures
        is_tidy(block_text(s)),
{
    let lines = tidy_lines(s);
    assert forall|k: int| 0 <= k < lines.len() implies is_tidy(#[trigger] lines[k])
        && lines[k].len() > 0 by {
        let f = lemma_tidy_line(s, k);
        let field = split(s, '\n')[f];
        lemma_words(field);
        assert forall|w: int| 0 <= w < words(field).len() implies is_tidy(
            #[trigger] words(field)[w],
        ) && words(field)[w].len() > 0 by {
            lemma_word_is_tidy(words(field)[w]);
        }
        lemma_tidy_join(words(field), seq![' ']);
    }
    lemma_tidy_join(lines, seq!['\n']);
}

/// Whether every block is tidy and not empty.
spec fn tidy_blocks(bs: Seq<(Block, Seq<char>)>) -> bool {
    forall|k: int| 0 <= k < bs.len() ==> is_tidy((#[trigger] bs[k]).1) && bs[k].1.len() > 0
}

/// The finished blocks are tidy and not empty.
proof fn lemma_closed_blocks_tidy(s: Seq<char>)
    ensures
        tidy_blocks(closed_blocks(s)),
    decreases s.len(),
{
    if s.len() > 0 {
        let d = s.drop_last();
        lemma_closed_blocks_tidy(d);
        block_text_is_tidy(open_text(d));
    }
}

/// Tidy blocks are shown as a tidy text.
proof fn lemma_shown_tidy(bs: Seq<(Block, Seq<char>)>)
    requires
        tidy_blocks(bs),
    ensures
        is_tidy(blocks_shown(bs)),
        bs.len() > 0 ==> blocks_shown(bs).len() > 0,
    decreases bs.len(),
{
    reveal_strlit("• ");
    reveal_strlit("\n");
    reveal_strlit("\n\n");
    if bs.len() > 0 {
        let last = bs[bs.len() - 1];
        let mark = seq!['•'];
        assert("• "@ =~= mark + seq![' ']);
        assert(is_word(mark));
        lemma_word_is_tidy(mark);
        lemma_tidy_pair(mark, seq![' '], last.1);
        assert(is_tidy(block_shown(last)) && block_shown(last).len() > 0);
        if bs.len() > 1 {
            let front = bs.drop_last();
            assert forall|k: int| 0 <= k < front.len() implies is_tidy((#[trigger] front[k]).1)
                && front[k].1.len() > 0 by {
                assert(front[k] == bs[k]);
            }
            lemma_shown_tidy(front);
            assert("\n"@ =~= seq!['\n']);
            assert("\n\n"@ =~= seq!['\n', '\n']);
            let tight = bs.last().0 == Block::Bullet && bs[bs.len() - 2].0 == Block::Bullet;
            let sep = if tight {
                "\n"@
            } else {
                "\n\n"@
            };
            lemma_tidy_pair(blocks_shown(front), sep, block_shown(last));
        }
    }
}

/// Plain text is tidy: no surrounding whitespace, single spaces between words,
/// and at most one blank line between paragraphs.
pub proof fn plain_text_is_tidy(s: Seq<char>)
    ensures
        is_tidy(plain_text(s)),
{
    lemma_closed_blocks_tidy(s);
    block_text_is_tidy(open_text(s));
    lemma_shown_tidy(blocks_of(s));
}

// ---------------------------------------------------------------------------
// Text without markup
// ---------------------------------------------------------------------------

/// Without angle brackets everything belongs to one open paragraph.
proof fn lemma_bare(s: Seq<char>)
    requires
        !s.contains('<'),
        !s.contains('>'),
    ensures
        !inside_tag(s),
        open_text(s) == s,
        open_kind(s) == Block::Para,
        closed_blocks(s).len() == 0,
    decreases s.len(),
{
    if s.len() > 0 {
        let d = s.drop_last();
        assert(s.contains(s[s.len() - 1]));
        if d.contains('<') {
            let i = choose|i: int| 0 <= i < d.len() && d[i] == '<';
            assert(s[i] == '<');
        }
        if d.contains('>') {
            let i = choose|i: int| 0 <= i < d.len() && d[i] == '>';
            assert(s[i] == '>');
        }
        lemma_bare(d);
        assert(d.push(s.last()) =~= s);
    } else {
        assert(open_text(s) =~= s);
    }
}

/// A text without angle brackets is one paragraph.
pub proof fn bare_text_is_one_paragraph(s: Seq<char>)
    requires
        !s.contains('<'),
        !s.contains('>'),
    ensures
        plain_text(s) == block_text(s),
{
    lemma_bare(s);
    assert(closed_blocks(s) =~= Seq::empty());
    if block_text(s).len() == 0 {
        assert(block_text(s) =~= Seq::empty());
    }
}

/// The text of a block stays as it is when it is made into a block again.
proof fn lemma_block_text_again(s: Seq<char>)
    ensures
        block_text(block_text(s)) == block_text(s),
{
    let lines = tidy_lines(s);
    if lines.len() == 0 {
        assert(block_text(s) =~= Seq::empty());
        lemma_empty_block();
    } else {
        assert forall|k: int| 0 <= k < lines.len() implies !(#[trigger] lines[k]).contains('\n')
            && single_line_of(lines[k]) == lines[k] && lines[k].len() > 0 by {
            let f = lemma_tidy_line(s, k);
            let field = split(s, '\n')[f];
            lemma_single_line(field);
        }
        join_then_split(lines, '\n');
        assert(lines.map_values(|l: Seq<char>| single_line_of(l)) =~= lines);
        lemma_keep_all(lines);
    }
}

/// Lines that are not empty all stay.
proof fn lemma_keep_all(lines: Seq<Seq<char>>)
    requires
        forall|k: int| 0 <= k < lines.len() ==> (#[trigger] lines[k]).len() > 0,
    ensures
        lines.filter(|l: Seq<char>| l.len() > 0) == lines,
    decreases lines.len(),
{
    reveal(Seq::filter);
    if lines.len() > 0 {
        let d = lines.drop_last();
        assert forall|k: int| 0 <= k < d.len() implies (#[trigger] d[k]).len() > 0 by {
            assert(d[k] == lines[k]);
        }
        lemma_keep_all(d);
        assert(lines[lines.len() - 1].len() > 0);
        assert(d.push(lines.last()) =~= lines);
    }
}

/// A single line has no line break, is tidy, and is its own single line.
proof fn lemma_single_line(s: Seq<char>)
    ensures
        is_tidy(single_line_of(s)),
        !single_line_of(s).contains('\n'),
        single_line_of(single_line_of(s)) == single_line_of(s),
{
    let ws = words(s);
    lemma_words(s);
    assert forall|w: int| 0 <= w < ws.len() implies is_tidy(#[trigger] ws[w]) && ws[w].len() > 0 by {
        lemma_word_is_tidy(ws[w]);
    }
    lemma_tidy_join(ws, seq![' ']);
    lemma_words_of_join(ws);
    if single_line_of(s).contains('\n') {
        lemma_join_chars(ws, seq![' '], '\n');
        let k = choose|k: int| 0 <= k < ws.len() && (#[trigger] ws[k]).contains('\n');
        let i = choose|i: int| 0 <= i < ws[k].len() && ws[k][i] == '\n';
        assert(is_word(ws[k]));
        assert(!is_space(ws[k][i]));
    }
}

/// A single line has no two whitespace characters next to each other, so never two
/// spaces.
pub proof fn single_lines_have_single_spaces(s: Seq<char>)
    ensures
        forall|i: int|
            0 <= i < single_line_of(s).len() - 1 ==> !(is_space(#[trigger] single_line_of(s)[i])
                && is_space(single_line_of(s)[i + 1])),
{
    lemma_single_line(s);
    let t = single_line_of(s);
    assert forall|i: int| 0 <= i < t.len() - 1 implies !(is_space(#[trigger] t[i]) && is_space(
        t[i + 1],
    )) by {
        if is_space(t[i]) && is_space(t[i + 1]) {
            assert(t.contains(t[i]));
        }
    }
}

/// Without an opening bracket everything belongs to one open paragraph, which holds
/// the text with a space for each closing bracket.
proof fn lemma_untagged(s: Seq<char>)
    requires
        !s.contains('<'),
    ensures
        !inside_tag(s),
        last_tag(s) == Seq::<char>::empty(),
        !ends_block(s),
        open_kind(s) == Block::Para,
        closed_blocks(s).len() == 0,
        forall|c: char| open_text(s).contains(c) ==> c == ' ' || c == '\n' || s.contains(c),
    decreases s.len(),
{
    if s.len() > 0 {
        let d = s.drop_last();
        assert(s.contains(s[s.len() - 1]));
        if d.contains('<') {
            let i = choose|i: int| 0 <= i < d.len() && d[i] == '<';
            assert(s[i] == '<');
        }
        lemma_untagged(d);
        lemma_no_name();
        assert forall|c: char| open_text(s).contains(c) implies c == ' ' || c == '\n' || s.contains(
            c,
        ) by {
            let t = open_text(s);
            let before = open_text(d);
            let i = choose|i: int| 0 <= i < t.len() && t[i] == c;
            if i < before.len() {
                assert(before[i] == c);
                assert(before.contains(c));
                if d.contains(c) {
                    let j = choose|j: int| 0 <= j < d.len() && d[j] == c;
                    assert(s[j] == c);
                }
            }
        }
    }
}

/// An empty tag is no block-level tag.
proof fn lemma_no_name()
    ensures
        !is_block_name(name_of_tag(Seq::empty())),
{
    assert(name_of_tag(Seq::empty()) =~= Seq::<char>::empty());
    reveal_strlit("p");
    reveal_strlit("div");
    reveal_strlit("li");
    reveal_strlit("ul");
    reveal_strlit("ol");
    reveal_strlit("tr");
    reveal_strlit("table");
    reveal_strlit("section");
    reveal_strlit("article");
    reveal_strlit("header");
    reveal_strlit("footer");
    reveal_strlit("blockquote");
    reveal_strlit("hr");
    reveal_strlit("h1");
    reveal_strlit("h2");
    reveal_strlit("h3");
    reveal_strlit("h4");
    reveal_strlit("h5");
    reveal_strlit("h6");
}

/// Cleaning a text without markup, that is without a `<` and without a character
/// reference, twice gives the same as cleaning it once.
pub proof fn cleaning_bare_text_twice_is_cleaning_it_once(s: Seq<char>)
    requires
        !s.contains('<'),
        !s.contains('&'),
    ensures
        cleaned(cleaned(s)) == cleaned(s),
{
    let t = plain_text(s);
    let raw = open_text(s);
    lemma_untagged(s);
    assert(closed_blocks(s) =~= Seq::empty());
    if block_text(raw).len() == 0 {
        assert(block_text(raw) =~= Seq::empty());
    }
    assert(t == block_text(raw));
    if t.contains('&') {
        lemma_block_text_chars(raw, '&');
    }
    plain_text_has_no_markup(s);
    bare_text_is_one_paragraph(t);
    lemma_block_text_again(raw);
}

/// Whether a text has a blank line: two line breaks in a row.
pub open spec fn has_blank_line(t: Seq<char>) -> bool {
    exists|i: int| 0 <= i < t.len() - 1 && #[trigger] t[i] == '\n' && t[i + 1] == '\n'
}

/// The lines of a tidy text without blank lines are their own single lines.
proof fn lemma_tidy_fields(t: Seq<char>)
    requires
        is_tidy(t),
        t.len() > 0,
        !has_blank_line(t),
    ensures
        forall|k: int|
            0 <= k < split(t, '\n').len() ==> (#[trigger] split(t, '\n')[k]).len() > 0
                && single_line_of(split(t, '\n')[k]) == split(t, '\n')[k],
        split(t, '\n').len() > 0,
        split(t, '\n').last().last() == t.last(),
    decreases t.len(),
{
    let c = t.last();
    let d = t.drop_last();
    let w = seq![c];
    assert(is_word(w));
    lemma_words_of_word(w);
    let fields = split(t, '\n');
    lemma_split(t, '\n');
    let e = Seq::<char>::empty();
    if d.len() == 0 {
        assert(d =~= e);
        assert(split(d, '\n') =~= seq![e]);
        assert(e.push(c) =~= w);
        assert(fields =~= seq![w]);
    } else if !is_space(d.last()) {
        lemma_tidy_prefix(t, d.len() as int);
        lemma_tidy_fields(d);
        let before = split(d, '\n');
        let l = before[before.len() - 1];
        assert(fields == before.drop_last().push(l.push(c)));
        let ws = words(l);
        lemma_words(l);
        assert(l.push(c).drop_last() =~= l);
        assert(l.push(c)[l.len() - 1] == l.last());
        assert(words(l.push(c)) == ws.drop_last().push(ws.last().push(c)));
        lemma_join_extend(ws, w, seq![' ']);
        assert(ws.last() + w =~= ws.last().push(c));
        assert(l + w =~= l.push(c));
        assert forall|k: int| 0 <= k < fields.len() implies (#[trigger] fields[k]).len() > 0
            && single_line_of(fields[k]) == fields[k] by {
            if k < before.len() - 1 {
                assert(fields[k] == before[k]);
            }
        }
    } else {
        let f = d.drop_last();
        let x = d.last();
        assert(x == t[t.len() - 2]);
        assert(f.len() > 0) by {
            assert(t[0] == d[0]);
        }
        assert(f.last() == t[t.len() - 3]);
        assert(!is_space(f.last())) by {
            if is_space(t[t.len() - 3]) {
                assert(is_space(t[t.len() - 3 + 1]));
                assert(t[t.len() - 3] == '\n' && t[t.len() - 3 + 1] == '\n');
            }
        }
        lemma_tidy_prefix(t, f.len() as int);
        assert(f =~= t.take(f.len() as int));
        lemma_tidy_fields(f);
        let before = split(f, '\n');
        let l = before[before.len() - 1];
        assert(is_space(t[t.len() - 2]));
        if x == '\n' {
            assert(split(d, '\n') == before.push(e));
            assert(before.push(e).drop_last() =~= before);
            assert(e.push(c) =~= w);
            assert(fields == before.push(w));
            assert forall|k: int| 0 <= k < fields.len() implies (#[trigger] fields[k]).len() > 0
                && single_line_of(fields[k]) == fields[k] by {
                if k < before.len() {
                    assert(fields[k] == before[k]);
                }
            }
        } else {
            assert(x == ' ');
            assert(split(d, '\n') == before.drop_last().push(l.push(' ')));
            assert(before.drop_last().push(l.push(' ')).drop_last() =~= before.drop_last());
            assert(fields == before.drop_last().push(l.push(' ').push(c)));
            assert(l.push(' ').push(c) =~= l + seq![' '] + w);
            lemma_words(l);
            lemma_words_append(l, w);
            lemma_join_push(words(l), w, seq![' ']);
            assert forall|k: int| 0 <= k < fields.len() implies (#[trigger] fields[k]).len() > 0
                && single_line_of(fields[k]) == fields[k] by {
                if k < before.len() - 1 {
                    assert(fields[k] == before[k]);
                }
            }
        }
    }
}

/// A tidy text without blank lines, up to a word, is such a text.
proof fn lemma_tidy_prefix(t: Seq<char>, n: int)
    requires
        is_tidy(t),
        !has_blank_line(t),
        0 < n <= t.len(),
        !is_space(t[n - 1]),
    ensures
        is_tidy(t.take(n)),
        !has_blank_line(t.take(n)),
{
    let p = t.take(n);
    assert(forall|i: int| 0 <= i < n ==> p[i] == t[i]);
    assert(p[0] == t[0]);
    assert forall|i: int| 0 <= i < p.len() - 1 && is_space(#[trigger] p[i]) && is_space(
        p[i + 1],
    ) implies p[i] == '\n' && p[i + 1] == '\n' by {
        assert(is_space(t[i]) && is_space(t[i + 1]));
    }
    assert forall|i: int| 0 <= i < p.len() - 2 && is_space(#[trigger] p[i]) && is_space(
        p[i + 1],
    ) implies !is_space(p[i + 2]) by {
        assert(is_space(t[i]) && is_space(t[i + 1]));
    }
    if has_blank_line(p) {
        let i = choose|i: int| 0 <= i < p.len() - 1 && #[trigger] p[i] == '\n' && p[i + 1] == '\n';
        assert(t[i] == '\n' && t[i + 1] == '\n');
    }
}

/// Cleaning again what cleaning gave changes nothing, unless a blank line or an
/// ampersand is left in it: without markup, blank lines separate no paragraphs.
pub proof fn cleaning_again_changes_nothing(s: Seq<char>)
    requires
        !has_blank_line(cleaned(s)),
        !cleaned(s).contains('&'),
    ensures
        cleaned(cleaned(s)) == cleaned(s),
{
    let t = cleaned(s);
    plain_text_is_tidy(decoded(s));
    plain_text_has_no_markup(decoded(s));
    bare_text_is_one_paragraph(t);
    if t.len() == 0 {
        assert(t =~= Seq::empty());
        lemma_empty_block();
    } else {
        lemma_tidy_fields(t);
        let fields = split(t, '\n');
        assert(fields.map_values(|l: Seq<char>| single_line_of(l)) =~= fields);
        lemma_keep_all(fields);
        split_then_join(t, '\n');
    }
}

/// No text makes an empty block.
proof fn lemma_empty_block()
    ensures
        block_text(Seq::empty()) == Seq::<char>::empty(),
{
    if block_text(Seq::empty()).len() > 0 {
        let c = block_text(Seq::empty())[0];
        block_text_is_tidy(Seq::empty());
        assert(block_text(Seq::empty()).contains(c));
        lemma_block_text_chars(Seq::empty(), c);
    }
    assert(block_text(Seq::empty()) =~= Seq::<char>::empty());
}

/// A remote flag that the board did not give is one of the four canonical words.
pub proof fn inferred_remote_is_canonical(location: Option<Seq<char>>)
    ensures
        ({
            let r = remote_flag(None, location);
            r == "remote"@ || r == "hybrid"@ || r == "onsite"@ || r == "unknown"@
        }),
        remote_flag(None, location) == "unknown"@ <==> location is None,
{
    reveal_strlit("remote");
    reveal_strlit("hybrid");
    reveal_strlit("onsite");
    reveal_strlit("unknown");
    assert("unknown"@[0] == 'u');
    assert("remote"@[0] == 'r');
    assert("hybrid"@[0] == 'h');
    assert("onsite"@[0] == 'o');
}

} // verus!
