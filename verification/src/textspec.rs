//! The mathematical model of plain-text rendering: joining child texts
//! with a separator, splitting a text block into lines, and aligning the
//! line blocks of a table row's cells into one rectangular grid.

use vstd::prelude::*;

verus! {

/// The text of a composite rendering node: the children's texts joined
/// with the separator. An empty sequence yields the empty text; a single
/// text is returned unseparated.
pub open spec fn join_texts(texts: Seq<Seq<char>>, sep: Seq<char>) -> Seq<char>
    decreases texts.len(),
{
    if texts.len() == 0 {
        Seq::empty()
    } else if texts.len() == 1 {
        texts[0]
    } else {
        texts[0] + sep + join_texts(texts.drop_first(), sep)
    }
}

/// Whether a text holds a line break.
pub open spec fn has_newline(text: Seq<char>) -> bool {
    exists|i: int| 0 <= i < text.len() && text[i] == '\n'
}

/// A text block as its lines: split at every line break. The empty text
/// is one empty line; every break ends a line, so a trailing break yields
/// a final empty line.
pub open spec fn split_lines(text: Seq<char>) -> Seq<Seq<char>>
    decreases text.len(),
{
    if text.len() == 0 {
        seq![Seq::<char>::empty()]
    } else if text[0] == '\n' {
        seq![Seq::<char>::empty()] + split_lines(text.drop_first())
    } else {
        let rest = split_lines(text.drop_first());
        seq![seq![text[0]] + rest[0]] + rest.drop_first()
    }
}

/// A split is never empty: there is always at least the (possibly empty)
/// first line.
pub proof fn lemma_split_lines_len(text: Seq<char>)
    ensures
        split_lines(text).len() >= 1,
    decreases text.len(),
{
    if text.len() == 0 {
    } else {
        lemma_split_lines_len(text.drop_first());
    }
}

/// No line of a split holds a line break.
pub proof fn lemma_split_lines_flat(text: Seq<char>)
    ensures
        forall|i: int|
            0 <= i < split_lines(text).len() ==> !has_newline(#[trigger] split_lines(text)[i]),
    decreases text.len(),
{
    if text.len() == 0 {
        assert(!has_newline(split_lines(text)[0]));
    } else if text[0] == '\n' {
        lemma_split_lines_flat(text.drop_first());
        assert(!has_newline(split_lines(text)[0]));
        assert forall|i: int| 0 <= i < split_lines(text).len() implies !has_newline(
            #[trigger] split_lines(text)[i],
        ) by {
            if i >= 1 {
                assert(split_lines(text)[i] == split_lines(text.drop_first())[i - 1]);
            }
        }
    } else {
        lemma_split_lines_flat(text.drop_first());
        lemma_split_lines_len(text.drop_first());
        let rest = split_lines(text.drop_first());
        assert forall|i: int| 0 <= i < split_lines(text).len() implies !has_newline(
            #[trigger] split_lines(text)[i],
        ) by {
            if i == 0 {
                let line = seq![text[0]] + rest[0];
                assert(split_lines(text)[0] == line);
                assert(!has_newline(rest[0]));
                assert forall|k: int| 0 <= k < line.len() implies line[k] != '\n' by {
                    if k >= 1 {
                        assert(line[k] == rest[0][k - 1]);
                    }
                }
            } else {
                assert(split_lines(text)[i] == rest[i]);
            }
        }
    }
}

/// A text without line breaks splits into itself as the one line.
pub proof fn lemma_split_lines_flat_text(text: Seq<char>)
    requires
        !has_newline(text),
    ensures
        split_lines(text) == seq![text],
    decreases text.len(),
{
    if text.len() == 0 {
        assert(split_lines(text) =~~= seq![text]);
    } else {
        assert(text[0] != '\n');
        assert(!has_newline(text.drop_first())) by {
            assert forall|i: int| 0 <= i < text.drop_first().len() implies text.drop_first()[i]
                != '\n' by {
                assert(text.drop_first()[i] == text[i + 1]);
            }
        }
        lemma_split_lines_flat_text(text.drop_first());
        assert(seq![text[0]] + text.drop_first() =~= text);
        assert(split_lines(text) =~~= seq![text]);
    }
}

/// Splitting distributes over a break-free prefix: the prefix extends the
/// first line of the remainder's split.
pub proof fn lemma_split_lines_prefix(a: Seq<char>, b: Seq<char>)
    requires
        !has_newline(a),
    ensures
        split_lines(a + b) == seq![a + split_lines(b)[0]] + split_lines(b).drop_first(),
    decreases a.len(),
{
    lemma_split_lines_len(b);
    if a.len() == 0 {
        assert(a + b =~= b);
        assert(a + split_lines(b)[0] =~= split_lines(b)[0]);
        assert(seq![split_lines(b)[0]] + split_lines(b).drop_first() =~~= split_lines(b));
    } else {
        assert(a[0] != '\n');
        assert(!has_newline(a.drop_first())) by {
            assert forall|i: int| 0 <= i < a.drop_first().len() implies a.drop_first()[i]
                != '\n' by {
                assert(a.drop_first()[i] == a[i + 1]);
            }
        }
        lemma_split_lines_prefix(a.drop_first(), b);
        let ab = a + b;
        assert(ab.len() > 0 && ab[0] == a[0]);
        assert(ab.drop_first() =~= a.drop_first() + b);
        let rest = split_lines(a.drop_first() + b);
        assert(split_lines(ab) == seq![seq![ab[0]] + rest[0]] + rest.drop_first());
        assert(rest[0] == a.drop_first() + split_lines(b)[0]);
        assert(seq![ab[0]] + rest[0] =~= a + split_lines(b)[0]);
        assert(rest.drop_first() =~~= split_lines(b).drop_first());
        assert(split_lines(ab) =~~= seq![a + split_lines(b)[0]] + split_lines(b).drop_first());
    }
}

/// Appending one more text to a join: the separator stands between the
/// old join and the new text, except before the very first text.
pub proof fn lemma_join_texts_push(texts: Seq<Seq<char>>, sep: Seq<char>, t: Seq<char>)
    ensures
        texts.len() == 0 ==> join_texts(texts.push(t), sep) == t,
        texts.len() > 0 ==> join_texts(texts.push(t), sep) == join_texts(texts, sep) + sep + t,
    decreases texts.len(),
{
    let p = texts.push(t);
    if texts.len() == 0 {
        assert(p.len() == 1 && p[0] == t);
    } else if texts.len() == 1 {
        assert(p.len() == 2);
        assert(p.drop_first() =~~= seq![t]);
        assert(join_texts(p.drop_first(), sep) == t);
        assert(join_texts(p, sep) == p[0] + sep + t);
        assert(p[0] == texts[0]);
        assert(join_texts(texts, sep) == texts[0]);
    } else {
        assert(p.drop_first() =~~= texts.drop_first().push(t));
        lemma_join_texts_push(texts.drop_first(), sep, t);
        assert(join_texts(p, sep) == p[0] + sep + (join_texts(texts.drop_first(), sep) + sep
            + t));
        assert(p[0] + sep + (join_texts(texts.drop_first(), sep) + sep + t) =~= (texts[0] + sep
            + join_texts(texts.drop_first(), sep)) + sep + t);
    }
}

/// Splitting undoes joining with a line break: joining break-free lines
/// with `'\n'` and splitting again gives back exactly those lines.
pub proof fn lemma_split_join_lines(lines: Seq<Seq<char>>)
    requires
        lines.len() >= 1,
        forall|i: int| 0 <= i < lines.len() ==> !has_newline(#[trigger] lines[i]),
    ensures
        split_lines(join_texts(lines, seq!['\n'])) == lines,
    decreases lines.len(),
{
    let sep = seq!['\n'];
    if lines.len() == 1 {
        lemma_split_lines_flat_text(lines[0]);
        assert(split_lines(join_texts(lines, sep)) =~~= lines);
    } else {
        let rest = lines.drop_first();
        lemma_split_join_lines(rest);
        let j = join_texts(rest, sep);
        let b = sep + j;
        assert(join_texts(lines, sep) =~= lines[0] + b);
        lemma_split_lines_prefix(lines[0], b);
        assert(b[0] == '\n');
        assert(b.drop_first() =~= j);
        assert(split_lines(b) == seq![Seq::<char>::empty()] + split_lines(j));
        assert(split_lines(b)[0] =~= Seq::<char>::empty());
        assert(lines[0] + split_lines(b)[0] =~= lines[0]);
        assert(split_lines(b).drop_first() =~~= rest);
        assert(split_lines(lines[0] + b) =~~= lines);
    }
}

/// Concatenation keeps texts break-free.
pub proof fn lemma_flat_concat(a: Seq<char>, b: Seq<char>)
    requires
        !has_newline(a),
        !has_newline(b),
    ensures
        !has_newline(a + b),
{
    assert forall|k: int| 0 <= k < (a + b).len() implies (a + b)[k] != '\n' by {
        if k < a.len() {
            assert((a + b)[k] == a[k]);
        } else {
            assert((a + b)[k] == b[k - a.len()]);
        }
    }
}

/// A join of break-free texts with a break-free separator is break-free.
pub proof fn lemma_join_texts_flat(texts: Seq<Seq<char>>, sep: Seq<char>)
    requires
        !has_newline(sep),
        forall|i: int| 0 <= i < texts.len() ==> !has_newline(#[trigger] texts[i]),
    ensures
        !has_newline(join_texts(texts, sep)),
    decreases texts.len(),
{
    if texts.len() == 0 {
        assert(!has_newline(Seq::<char>::empty()));
    } else if texts.len() == 1 {
    } else {
        assert forall|i: int| 0 <= i < texts.drop_first().len() implies !has_newline(
            #[trigger] texts.drop_first()[i],
        ) by {
            assert(texts.drop_first()[i] == texts[i + 1]);
        }
        lemma_join_texts_flat(texts.drop_first(), sep);
        lemma_flat_concat(texts[0], sep);
        lemma_flat_concat(texts[0] + sep, join_texts(texts.drop_first(), sep));
    }
}

/// The greatest line count among the cells' line blocks.
pub open spec fn max_len(blocks: Seq<Seq<Seq<char>>>) -> nat
    decreases blocks.len(),
{
    if blocks.len() == 0 {
        0
    } else {
        let rest = max_len(blocks.drop_last());
        if blocks.last().len() > rest {
            blocks.last().len()
        } else {
            rest
        }
    }
}

/// The maximum bounds every block's line count, and some block reaches it.
pub proof fn lemma_max_len(blocks: Seq<Seq<Seq<char>>>)
    ensures
        forall|j: int| 0 <= j < blocks.len() ==> (#[trigger] blocks[j]).len() <= max_len(blocks),
        blocks.len() > 0 ==> exists|j: int|
            0 <= j < blocks.len() && (#[trigger] blocks[j]).len() == max_len(blocks),
    decreases blocks.len(),
{
    if blocks.len() > 0 {
        lemma_max_len(blocks.drop_last());
        assert forall|j: int| 0 <= j < blocks.len() implies (#[trigger] blocks[j]).len()
            <= max_len(blocks) by {
            if j < blocks.len() - 1 {
                assert(blocks.drop_last()[j] == blocks[j]);
            }
        }
        if blocks.last().len() > max_len(blocks.drop_last()) {
            assert(blocks[blocks.len() - 1].len() == max_len(blocks));
        } else if blocks.len() == 1 {
            assert(blocks[0].len() == 0);
        } else {
            let j = choose|j: int|
                0 <= j < blocks.drop_last().len() && (#[trigger] blocks.drop_last()[j]).len()
                    == max_len(blocks.drop_last());
            assert(blocks[j].len() == max_len(blocks));
        }
    }
}

/// The field of one cell in one grid line: the cell's `i`-th line where
/// it has one, else the empty text (short cells are bottom-padded).
pub open spec fn line_at(lines: Seq<Seq<char>>, i: int) -> Seq<char> {
    if 0 <= i < lines.len() {
        lines[i]
    } else {
        Seq::empty()
    }
}

/// The fields of grid line `i`, one per cell, in column order.
pub open spec fn grid_fields(blocks: Seq<Seq<Seq<char>>>, i: int) -> Seq<Seq<char>> {
    Seq::new(blocks.len(), |j: int| line_at(blocks[j], i))
}

/// One grid line: the fields joined with `" | "` and wrapped in a leading
/// `"| "` and a trailing `" |"`.
pub open spec fn grid_line(blocks: Seq<Seq<Seq<char>>>, i: int) -> Seq<char> {
    seq!['|', ' '] + join_texts(grid_fields(blocks, i), seq![' ', '|', ' ']) + seq![' ', '|']
}

/// Each cell's text as its lines.
pub open spec fn split_blocks(cell_texts: Seq<Seq<char>>) -> Seq<Seq<Seq<char>>> {
    cell_texts.map_values(|t: Seq<char>| split_lines(t))
}

/// The grid text of a table row with the given cell texts: every cell is
/// split into lines, the lines are aligned column by column into
/// `max_len` grid lines, and the grid lines are stacked with `'\n'`. A
/// row with no cells renders as the single line `"| |"`.
pub open spec fn row_grid(cell_texts: Seq<Seq<char>>) -> Seq<char> {
    if cell_texts.len() == 0 {
        seq!['|', ' ', '|']
    } else {
        let blocks = split_blocks(cell_texts);
        join_texts(Seq::new(max_len(blocks), |i: int| grid_line(blocks, i)), seq!['\n'])
    }
}

} // verus!

