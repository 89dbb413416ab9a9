//! Greedy word-wrap that keeps paragraphs and bullets.

use vstd::prelude::*;

use crate::text::search::begins;
use crate::text::words::{
    is_word, join, join_then_split, lemma_join_extend, lemma_join_push, lemma_split,
    lemma_split_concat, lemma_words, lemma_words_after, lemma_words_append, lemma_words_concat,
    lemma_words_of_word, lemma_words_space, single_line_of, split, split_on, split_then_join,
    words, words_of,
};
use crate::text::{chars_of, is_blank, is_space, texts};

verus! {

/// Words laid out in lines of at most `width` columns: a word goes onto the current
/// line if it fits there behind a space, and else starts an indented line.
pub open spec fn laid(ws: Seq<Seq<char>>, indent: Seq<char>, width: nat) -> Seq<Seq<char>>
    decreases ws.len(),
{
    if ws.len() == 0 {
        Seq::empty()
    } else if ws.len() == 1 {
        seq![ws[0]]
    } else {
        let before = laid(ws.drop_last(), indent, width);
        let w = ws.last();
        if before.last().len() + 1 + w.len() <= width {
            before.drop_last().push(before.last() + (seq![' '] + w))
        } else {
            before.push(indent + w)
        }
    }
}

/// What the lines after the first are indented by: the width of a bullet under a
/// bullet.
pub open spec fn hanging(line: Seq<char>) -> Seq<char> {
    if begins(line, "• "@) {
        "  "@
    } else {
        Seq::empty()
    }
}

/// A line, wrapped; a blank line stays an empty one.
pub open spec fn wrapped_line(line: Seq<char>, width: nat) -> Seq<char> {
    if is_blank(line) {
        seq!['\n']
    } else {
        join(laid(words(line), hanging(line), width), seq!['\n']) + seq!['\n']
    }
}

/// Lines, each wrapped on its own.
pub open spec fn wrapped_lines(lines: Seq<Seq<char>>, width: nat) -> Seq<char>
    decreases lines.len(),
{
    if lines.len() == 0 {
        Seq::empty()
    } else {
        wrapped_lines(lines.drop_last(), width) + wrapped_line(lines.last(), width)
    }
}

/// A text, each of its lines wrapped on its own.
pub open spec fn wrapped(text: Seq<char>, width: nat) -> Seq<char> {
    wrapped_lines(split(text, '\n'), width)
}

// ---------------------------------------------------------------------------
// Laws
// ---------------------------------------------------------------------------

/// Every wrapped line fits into the width, unless it is a single word that is too
/// long for a line of its own. There is a line as soon as there is a word.
pub proof fn wrapped_lines_fit(ws: Seq<Seq<char>>, indent: Seq<char>, width: nat)
    ensures
        laid(ws, indent, width).len() > 0 <==> ws.len() > 0,
        forall|k: int|
            0 <= k < laid(ws, indent, width).len() ==> (#[trigger] laid(
                ws,
                indent,
                width,
            )[k]).len() <= width || is_lone_word(laid(ws, indent, width)[k], ws, indent),
    decreases ws.len(),
{
    let lines = laid(ws, indent, width);
    if ws.len() == 1 {
        assert(lines[0] == ws[0]);
    } else if ws.len() > 1 {
        let front = ws.drop_last();
        let before = laid(front, indent, width);
        wrapped_lines_fit(front, indent, width);
        assert forall|k: int| 0 <= k < lines.len() implies (#[trigger] lines[k]).len() <= width
            || is_lone_word(lines[k], ws, indent) by {
            if k < before.len() && lines[k] == before[k] {
                if is_lone_word(before[k], front, indent) {
                    let i = choose|i: int|
                        0 <= i < front.len() && (before[k] == #[trigger] front[i] || before[k]
                            == indent + front[i]);
                    assert(ws[i] == front[i]);
                }
            } else if k == before.len() {
                assert(lines[k] == indent + ws[ws.len() - 1]);
            }
        }
    }
}

/// Whether a line is one of the words, indented or not.
pub open spec fn is_lone_word(line: Seq<char>, ws: Seq<Seq<char>>, indent: Seq<char>) -> bool {
    exists|i: int| 0 <= i < ws.len() && (line == #[trigger] ws[i] || line == indent + ws[i])
}

/// Laying out words in lines keeps the words, and no line is broken further.
pub proof fn laying_out_keeps_the_words(ws: Seq<Seq<char>>, indent: Seq<char>, width: nat)
    requires
        forall|k: int| 0 <= k < ws.len() ==> is_word(#[trigger] ws[k]),
        indent == Seq::<char>::empty() || indent == seq![' ', ' '],
        ws.len() > 0,
    ensures
        words(join(laid(ws, indent, width), seq!['\n'])) == ws,
        split(join(laid(ws, indent, width), seq!['\n']), '\n') == laid(ws, indent, width),
{
    lemma_laid_words(ws, indent, width);
    lemma_laid_lines(ws, indent, width);
    wrapped_lines_fit(ws, indent, width);
    join_then_split(laid(ws, indent, width), '\n');
}

/// No laid-out line holds a line break.
proof fn lemma_laid_lines(ws: Seq<Seq<char>>, indent: Seq<char>, width: nat)
    requires
        forall|k: int| 0 <= k < ws.len() ==> is_word(#[trigger] ws[k]),
        indent == Seq::<char>::empty() || indent == seq![' ', ' '],
    ensures
        forall|k: int|
            0 <= k < laid(ws, indent, width).len() ==> !(#[trigger] laid(
                ws,
                indent,
                width,
            )[k]).contains('\n'),
    decreases ws.len(),
{
    let lines = laid(ws, indent, width);
    if ws.len() > 0 {
        let w = ws[ws.len() - 1];
        assert(is_word(w));
        assert(!w.contains('\n')) by {
            if w.contains('\n') {
                let i = choose|i: int| 0 <= i < w.len() && w[i] == '\n';
                assert(!is_space(w[i]));
            }
        }
        if ws.len() > 1 {
            let front = ws.drop_last();
            assert forall|k: int| 0 <= k < front.len() implies is_word(#[trigger] front[k]) by {
                assert(front[k] == ws[k]);
            }
            lemma_laid_lines(front, indent, width);
            wrapped_lines_fit(front, indent, width);
            let before = laid(front, indent, width);
            assert(!before[before.len() - 1].contains('\n'));
            assert forall|k: int| 0 <= k < lines.len() implies !(#[trigger] lines[k]).contains(
                '\n',
            ) by {
                if lines[k].contains('\n') {
                    let i = choose|i: int| 0 <= i < lines[k].len() && lines[k][i] == '\n';
                    if k < before.len() && lines[k] == before[k] {
                    } else if k == before.len() {
                        assert(lines[k] == indent + w);
                        if i >= indent.len() {
                            assert(w[i - indent.len()] == '\n');
                        }
                    } else {
                        let l = before[before.len() - 1];
                        assert(lines[k] == l + (seq![' '] + w));
                        if i < l.len() {
                            assert(l[i] == '\n');
                        } else if i > l.len() {
                            assert(w[i - l.len() - 1] == '\n');
                        }
                    }
                }
            }
        }
    }
}

/// The words of laid-out words are those words.
proof fn lemma_laid_words(ws: Seq<Seq<char>>, indent: Seq<char>, width: nat)
    requires
        forall|k: int| 0 <= k < ws.len() ==> is_word(#[trigger] ws[k]),
        indent == Seq::<char>::empty() || indent == seq![' ', ' '],
    ensures
        words(join(laid(ws, indent, width), seq!['\n'])) == ws,
    decreases ws.len(),
{
    let lines = laid(ws, indent, width);
    let nl = seq!['\n'];
    if ws.len() == 0 {
        assert(words(join(lines, nl)) =~= ws);
    } else if ws.len() == 1 {
        lemma_words_of_word(ws[0]);
        assert(seq![ws[0]] =~= ws);
    } else {
        let front = ws.drop_last();
        assert forall|k: int| 0 <= k < front.len() implies is_word(#[trigger] front[k]) by {
            assert(front[k] == ws[k]);
        }
        lemma_laid_words(front, indent, width);
        wrapped_lines_fit(front, indent, width);
        let before = laid(front, indent, width);
        let w = ws[ws.len() - 1];
        let t = join(before, nl);
        assert(is_word(w));
        assert(front.push(w) =~= ws);
        if before.last().len() + 1 + w.len() <= width {
            lemma_join_extend(before, seq![' '] + w, nl);
            assert(t + (seq![' '] + w) =~= t + seq![' '] + w);
            lemma_words_append(t, w);
        } else {
            lemma_join_push(before, indent + w, nl);
            lemma_words_space(t, '\n');
            let p = t + nl;
            if indent.len() == 0 {
                assert(t + nl + (indent + w) =~= p + w);
                lemma_words_after(p, w);
            } else {
                lemma_words_space(p, ' ');
                lemma_words_space(p + seq![' '], ' ');
                let q = p + seq![' '] + seq![' '];
                assert(t + nl + (indent + w) =~= q + w);
                lemma_words_after(q, w);
            }
        }
    }
}

/// Wrapping a text keeps its words, in order.
pub proof fn wrapping_keeps_the_words(text: Seq<char>, width: nat)
    ensures
        words(wrapped(text, width)) == words(text),
{
    lemma_split(text, '\n');
    split_then_join(text, '\n');
    lemma_wrapped_words(split(text, '\n'), width);
}

/// The words of wrapped lines are the words of the lines.
proof fn lemma_wrapped_words(lines: Seq<Seq<char>>, width: nat)
    ensures
        words(wrapped_lines(lines, width)) == words(join(lines, seq!['\n'])),
        lines.len() > 0 ==> wrapped_lines(lines, width).len() > 0 && wrapped_lines(
            lines,
            width,
        ).last() == '\n',
    decreases lines.len(),
{
    let nl = seq!['\n'];
    if lines.len() > 0 {
        let line = lines[lines.len() - 1];
        let front = lines.drop_last();
        let w = wrapped_line(line, width);
        lemma_wrapped_words(front, width);
        lemma_words(line);
        assert(words(w) == words(line)) by {
            if is_blank(line) {
                lemma_words(w);
                assert(words(w) =~= words(line));
            } else {
                reveal_strlit("  ");
                assert("  "@ =~= seq![' ', ' ']);
                lemma_laid_words(words(line), hanging(line), width);
                lemma_words_space(join(laid(words(line), hanging(line), width), nl), '\n');
            }
        }
        lemma_words_concat(wrapped_lines(front, width), w);
        if lines.len() == 1 {
            assert(front.len() == 0);
            assert(wrapped_lines(front, width) =~= Seq::empty());
            assert(wrapped_lines(lines, width) =~= w);
        } else {
            let t = join(front, nl);
            lemma_words_space(t, '\n');
            lemma_words_concat(t + nl, line);
        }
    }
}

/// Lines behind lines are wrapped as each.
proof fn lemma_wrapped_concat(a: Seq<Seq<char>>, b: Seq<Seq<char>>, width: nat)
    ensures
        wrapped_lines(a + b, width) == wrapped_lines(a, width) + wrapped_lines(b, width),
    decreases b.len(),
{
    if b.len() == 0 {
        assert(a + b =~= a);
        assert(wrapped_lines(a, width) + wrapped_lines(b, width) =~= wrapped_lines(a, width));
    } else {
        lemma_wrapped_concat(a, b.drop_last(), width);
        assert((a + b).drop_last() =~= a + b.drop_last());
        assert((a + b).last() == b.last());
        assert(wrapped_lines(a + b, width) =~= wrapped_lines(a, width) + wrapped_lines(b, width));
    }
}

/// Lines are wrapped on their own: two texts with a line break between, wrapped, are
/// the two wrapped texts, one after the other.
pub proof fn lines_are_wrapped_alone(a: Seq<char>, b: Seq<char>, width: nat)
    ensures
        wrapped(a + seq!['\n'] + b, width) == wrapped(a, width) + wrapped(b, width),
{
    lemma_split_concat(a, b, '\n');
    lemma_wrapped_concat(split(a, '\n'), split(b, '\n'), width);
}

/// Whether a line has at most `width` columns, or holds a single word.
pub open spec fn fits_or_is_one_word(line: Seq<char>, width: nat) -> bool {
    line.len() <= width || words(line).len() == 1
}

/// Whether that holds of every line of a text.
pub open spec fn all_fit(text: Seq<char>, width: nat) -> bool {
    forall|k: int|
        0 <= k < split(text, '\n').len() ==> fits_or_is_one_word(
            #[trigger] split(text, '\n')[k],
            width,
        )
}

/// A text that ends in a line break has the lines before it, and an empty one.
proof fn lemma_split_ended(t: Seq<char>)
    ensures
        split(t + seq!['\n'], '\n') == split(t, '\n').push(Seq::empty()),
{
    assert((t + seq!['\n']).drop_last() =~= t);
}

/// The lines of a wrapped line fit.
proof fn lemma_wrapped_line_fits(line: Seq<char>, width: nat)
    ensures
        all_fit(wrapped_line(line, width), width),
        wrapped_line(line, width).len() > 0,
        wrapped_line(line, width).last() == '\n',
{
    let t = wrapped_line(line, width);
    if is_blank(line) {
        let e = Seq::<char>::empty();
        assert(t =~= e + seq!['\n']);
        lemma_split_ended(e);
        assert(split(e, '\n') =~= seq![e]);
    } else {
        let ws = words(line);
        let indent = hanging(line);
        let lines = laid(ws, indent, width);
        reveal_strlit("  ");
        assert("  "@ =~= seq![' ', ' ']);
        lemma_words(line);
        laying_out_keeps_the_words(ws, indent, width);
        wrapped_lines_fit(ws, indent, width);
        lemma_split_ended(join(lines, seq!['\n']));
        assert forall|k: int| 0 <= k < split(t, '\n').len() implies fits_or_is_one_word(
            #[trigger] split(t, '\n')[k],
            width,
        ) by {
            if k < lines.len() {
                assert(split(t, '\n')[k] == lines[k]);
                if is_lone_word(lines[k], ws, indent) {
                    let i = choose|i: int|
                        0 <= i < ws.len() && (lines[k] == #[trigger] ws[i] || lines[k] == indent
                            + ws[i]);
                    lemma_indented_word(ws[i], indent);
                }
            }
        }
    }
}

/// An indented word is one word.
proof fn lemma_indented_word(w: Seq<char>, indent: Seq<char>)
    requires
        is_word(w),
        indent == Seq::<char>::empty() || indent == seq![' ', ' '],
    ensures
        words(w).len() == 1,
        words(indent + w).len() == 1,
{
    lemma_words_of_word(w);
    lemma_words(indent);
    assert(is_blank(indent));
    lemma_words_concat(indent, w);
}

/// The lines of wrapped lines fit.
proof fn lemma_wrapped_lines_fit(lines: Seq<Seq<char>>, width: nat)
    ensures
        all_fit(wrapped_lines(lines, width), width),
        lines.len() > 0 ==> wrapped_lines(lines, width).len() > 0 && wrapped_lines(
            lines,
            width,
        ).last() == '\n',
    decreases lines.len(),
{
    let t = wrapped_lines(lines, width);
    if lines.len() == 0 {
        assert(split(t, '\n') =~= seq![Seq::<char>::empty()]);
    } else {
        let front = lines.drop_last();
        let a = wrapped_lines(front, width);
        let b = wrapped_line(lines.last(), width);
        lemma_wrapped_lines_fit(front, width);
        lemma_wrapped_line_fits(lines.last(), width);
        if front.len() == 0 {
            assert(a =~= Seq::empty());
            assert(t =~= b);
        } else {
            let head = a.drop_last();
            assert(a =~= head + seq!['\n']);
            lemma_split_ended(head);
            lemma_split_concat(head, b, '\n');
            assert(t == head + seq!['\n'] + b);
            assert forall|k: int| 0 <= k < split(t, '\n').len() implies fits_or_is_one_word(
                #[trigger] split(t, '\n')[k],
                width,
            ) by {
                if k < split(head, '\n').len() {
                    assert(split(t, '\n')[k] == split(a, '\n')[k]);
                } else {
                    assert(split(t, '\n')[k] == split(b, '\n')[k - split(head, '\n').len()]);
                }
            }
        }
    }
}

/// Every line of a wrapped text fits into the width, or holds a single word.
pub proof fn wrapped_text_fits(text: Seq<char>, width: nat)
    ensures
        all_fit(wrapped(text, width), width),
{
    lemma_wrapped_lines_fit(split(text, '\n'), width);
}

/// A line is broken only where the next word would not have fitted behind a space. Each
/// line is made of words with single spaces between them, and all but the first are
/// indented.
pub proof fn lines_break_only_where_they_must(ws: Seq<Seq<char>>, indent: Seq<char>, width: nat)
    requires
        forall|k: int| 0 <= k < ws.len() ==> is_word(#[trigger] ws[k]),
        indent == Seq::<char>::empty() || indent == seq![' ', ' '],
    ensures
        forall|k: int|
            0 <= k < laid(ws, indent, width).len() - 1 ==> (#[trigger] laid(
                ws,
                indent,
                width,
            )[k]).len() + 1 + words(laid(ws, indent, width)[k + 1])[0].len() > width,
        forall|k: int|
            0 <= k < laid(ws, indent, width).len() ==> (#[trigger] laid(ws, indent, width)[k])
                == (if k == 0 {
                Seq::<char>::empty()
            } else {
                indent
            }) + join(words(laid(ws, indent, width)[k]), seq![' ']) && words(
                laid(ws, indent, width)[k],
            ).len() > 0,
    decreases ws.len(),
{
    let lines = laid(ws, indent, width);
    let e = Seq::<char>::empty();
    let sp = seq![' '];
    if ws.len() == 1 {
        lemma_words_of_word(ws[0]);
        assert(lines[0] == ws[0]);
        assert(join(words(ws[0]), sp) == ws[0]);
        assert(e + ws[0] =~= ws[0]);
    } else if ws.len() > 1 {
        let front = ws.drop_last();
        assert forall|k: int| 0 <= k < front.len() implies is_word(#[trigger] front[k]) by {
            assert(front[k] == ws[k]);
        }
        let before = laid(front, indent, width);
        lines_break_only_where_they_must(front, indent, width);
        wrapped_lines_fit(front, indent, width);
        let w = ws[ws.len() - 1];
        let n = before.len() - 1;
        let l = before[n];
        assert(is_word(w));
        lemma_words_append(l, w);
        assert(l + (sp + w) =~= l + sp + w);
        lemma_words_of_word(w);
        lemma_words(indent);
        assert(is_blank(indent));
        lemma_words_concat(indent, w);
        assert(words(indent + w) =~= seq![w]);
        assert(join(seq![w], sp) == w);
        lemma_join_push(words(l), w, sp);
        if l.len() + 1 + w.len() <= width {
            assert(lines == before.drop_last().push(l + (sp + w)));
            assert(words(lines[n]) == words(l).push(w));
            assert(words(lines[n])[0] == words(l)[0]);
            assert forall|k: int| 0 <= k < lines.len() - 1 implies (#[trigger] lines[k]).len() + 1
                + words(lines[k + 1])[0].len() > width by {
                assert(lines[k] == before[k]);
                if k + 1 < n {
                    assert(lines[k + 1] == before[k + 1]);
                }
            }
            assert forall|k: int| 0 <= k < lines.len() implies (#[trigger] lines[k]) == (if k == 0 {
                e
            } else {
                indent
            }) + join(words(lines[k]), sp) && words(lines[k]).len() > 0 by {
                if k < n {
                    assert(lines[k] == before[k]);
                } else {
                    let i = if n == 0 {
                        e
                    } else {
                        indent
                    };
                    assert(l == i + join(words(l), sp));
                    assert(l + sp + w =~= i + (join(words(l), sp) + sp + w));
                }
            }
        } else {
            assert(lines == before.push(indent + w));
            assert forall|k: int| 0 <= k < lines.len() - 1 implies (#[trigger] lines[k]).len() + 1
                + words(lines[k + 1])[0].len() > width by {
                assert(lines[k] == before[k]);
                if k < n {
                    assert(lines[k + 1] == before[k + 1]);
                }
            }
            assert forall|k: int| 0 <= k < lines.len() implies (#[trigger] lines[k]) == (if k == 0 {
                e
            } else {
                indent
            }) + join(words(lines[k]), sp) && words(lines[k]).len() > 0 by {
                if k <= n {
                    assert(lines[k] == before[k]);
                }
            }
        }
    }
}

/// A line is laid out by its words, with the continuation lines of a bullet two columns
/// in; one that fits stays on one line, and a blank one stays an empty one.
pub proof fn a_line_is_laid_out_by_its_words(line: Seq<char>, width: nat)
    requires
        !line.contains('\n'),
    ensures
        is_blank(line) ==> wrapped(line, width) == seq!['\n'],
        !is_blank(line) && begins(line, "• "@) ==> wrapped(line, width) == join(
            laid(words(line), seq![' ', ' '], width),
            seq!['\n'],
        ) + seq!['\n'],
        !is_blank(line) && !begins(line, "• "@) ==> wrapped(line, width) == join(
            laid(words(line), Seq::empty(), width),
            seq!['\n'],
        ) + seq!['\n'],
        !is_blank(line) && single_line_of(line).len() <= width ==> wrapped(line, width)
            == single_line_of(line) + seq!['\n'],
{
    reveal_strlit("  ");
    assert("  "@ =~= seq![' ', ' ']);
    let one = seq![line];
    assert(one.drop_last() =~= Seq::<Seq<char>>::empty());
    assert(join(one, seq!['\n']) == line);
    join_then_split(one, '\n');
    assert(wrapped_lines(one.drop_last(), width) =~= Seq::empty());
    assert(wrapped(line, width) =~= wrapped_line(line, width));
    if !is_blank(line) && single_line_of(line).len() <= width {
        lemma_words(line);
        lemma_fits_on_one(words(line), hanging(line), width);
        let l = single_line_of(line);
        assert(join(seq![l], seq!['\n']) == l);
    }
}

/// Words that fit into one line are laid out in one.
proof fn lemma_fits_on_one(ws: Seq<Seq<char>>, indent: Seq<char>, width: nat)
    requires
        ws.len() > 0,
        join(ws, seq![' ']).len() <= width,
    ensures
        laid(ws, indent, width) == seq![join(ws, seq![' '])],
    decreases ws.len(),
{
    if ws.len() > 1 {
        let front = ws.drop_last();
        let f = join(front, seq![' ']);
        lemma_fits_on_one(front, indent, width);
        assert(laid(front, indent, width).last() == f);
        assert(f + (seq![' '] + ws.last()) =~= join(ws, seq![' ']));
        assert(laid(ws, indent, width) =~= seq![join(ws, seq![' '])]);
    }
}

// ---------------------------------------------------------------------------
// The function
// ---------------------------------------------------------------------------

/// Append the words of a line, laid out in lines.
fn append_words(out: &mut String, ws: &Vec<String>, indent: &str, width: usize)
    requires
        indent@.len() <= 2,
    ensures
        final(out)@ == old(out)@ + join(
            laid(texts(ws@), indent@, width as nat),
            seq!['\n'],
        ),
{
    let ghost start = out@;
    let ghost nl = seq!['\n'];
    let mut col: u128 = 0;
    let mut i: usize = 0;
    assert(texts(ws@.take(0)) =~= Seq::empty());
    assert(out@ =~= start + join(laid(texts(ws@.take(0)), indent@, width as nat), nl));
    let deep: u128 = chars_of(indent).len() as u128;
    while i < ws.len()
        invariant
            i <= ws.len(),
            nl == seq!['\n'],
            deep == indent@.len(),
            deep <= 2,
            col <= usize::MAX + 2 || col <= width,
            i > 0 ==> laid(texts(ws@.take(i as int)), indent@, width as nat).len() > 0,
            i > 0 ==> col == laid(
                texts(ws@.take(i as int)),
                indent@,
                width as nat,
            ).last().len(),
            out@ == start + join(laid(texts(ws@.take(i as int)), indent@, width as nat), nl),
        decreases ws.len() - i,
    {
        let word = ws[i].as_str();
        let w: u128 = chars_of(word).len() as u128;
        let ghost front = texts(ws@.take(i as int));
        let ghost all = texts(ws@.take(i + 1));
        let ghost before = laid(front, indent@, width as nat);
        proof {
            assert(all =~= front.push(word@));
            assert(all.drop_last() =~= front);
        }
        if i == 0 {
            out.append(word);
            col = w;
            assert(before.len() == 0);
            assert(join(laid(all, indent@, width as nat), nl) =~= word@);
            assert(out@ =~= start + join(laid(all, indent@, width as nat), nl));
        } else if col + 1 + w <= width as u128 {
            proof {
                lemma_join_extend(before, seq![' '] + word@, nl);
            }
            out.append(" ");
            out.append(word);
            col = col + 1 + w;
            proof {
                reveal_strlit(" ");
                assert(" "@ =~= seq![' ']);
                assert(out@ =~= start + join(laid(all, indent@, width as nat), nl));
            }
        } else {
            proof {
                lemma_join_push(before, indent@ + word@, nl);
            }
            out.append("\n");
            out.append(indent);
            out.append(word);
            col = deep + w;
            proof {
                reveal_strlit("\n");
                assert("\n"@ =~= seq!['\n']);
                assert(out@ =~= start + join(laid(all, indent@, width as nat), nl));
            }
        }
        i += 1;
    }
    assert(ws@.take(ws.len() as int) =~= ws@);
}

/// Greedy word-wrap to `width` columns, wrapping each line on its own so that
/// paragraphs, blank lines and bullets survive. The continuation lines of a wrapped
/// bullet hang under its text.
pub fn wrap(text: &str, width: usize) -> (r: String)
    ensures
        r@ == wrapped(text@, width as nat),
{
    let lines = split_on(chars_of(text).as_slice(), '\n');
    let mut out = String::new();
    let mut i: usize = 0;
    assert(texts(lines@.take(0)) =~= Seq::empty());
    assert(out@ =~= wrapped_lines(texts(lines@.take(0)), width as nat));
    proof {
        reveal_strlit("\n");
        assert("\n"@ =~= seq!['\n']);
        reveal_strlit("");
        assert(""@ =~= Seq::<char>::empty());
        reveal_strlit("  ");
    }
    while i < lines.len()
        invariant
            i <= lines.len(),
            "\n"@ == seq!['\n'],
            ""@ == Seq::<char>::empty(),
            "  "@.len() == 2,
            out@ == wrapped_lines(texts(lines@.take(i as int)), width as nat),
        decreases lines.len() - i,
    {
        let line = lines[i].as_str();
        let ghost front = texts(lines@.take(i as int));
        let ghost all = texts(lines@.take(i + 1));
        proof {
            assert(all =~= front.push(line@));
            assert(all.drop_last() =~= front);
        }
        if crate::text::blank(line) {
            out.append("\n");
        } else {
            let indent = if crate::text::search::begins_with(line, "• ") {
                "  "
            } else {
                ""
            };
            let ws = words_of(chars_of(line).as_slice());
            let ghost start = out@;
            append_words(&mut out, &ws, indent, width);
            out.append("\n");
            assert(out@ =~= start + wrapped_line(line@, width as nat));
        }
        i += 1;
    }
    assert(lines@.take(lines.len() as int) =~= lines@);
    out
}

} // verus!
