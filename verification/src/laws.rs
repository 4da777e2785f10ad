//! The laws the renderer keeps, stated over the mathematical model and
//! proved from the definitions the contracts use.

use vstd::prelude::*;

use crate::elements::TableRow;
use crate::render::agg_node;
use crate::render::node_texts;
use crate::render::spec_renders;
use crate::render::NodeView;
use crate::render::Render;
use crate::textspec::grid_fields;
use crate::textspec::grid_line;
use crate::textspec::has_newline;
use crate::textspec::join_texts;
use crate::textspec::lemma_flat_concat;
use crate::textspec::lemma_join_texts_flat;
use crate::textspec::lemma_max_len;
use crate::textspec::lemma_split_join_lines;
use crate::textspec::lemma_split_lines_flat;
use crate::textspec::lemma_split_lines_len;
use crate::textspec::line_at;
use crate::textspec::max_len;
use crate::textspec::row_grid;
use crate::textspec::split_blocks;
use crate::textspec::split_lines;

verus! {

/// The aggregator's text law: with separator `s` and children's texts
/// `t1 .. tn`, the aggregated text is `t1 + s + t2 + s + ... + tn` — the
/// empty sequence gives the empty text, a single text stands unseparated,
/// and otherwise the separator stands between the first text and the join
/// of the rest.
pub proof fn lemma_aggregated_text(
    kids: Seq<NodeView>,
    sep: Seq<char>,
    tag: Seq<char>,
    props: Option<serde_json::Value>,
)
    ensures
        kids.len() == 0 ==> agg_node(kids, sep, tag, props).text == Seq::<char>::empty(),
        kids.len() == 1 ==> agg_node(kids, sep, tag, props).text == kids[0].text,
        kids.len() > 1 ==> agg_node(kids, sep, tag, props).text == kids[0].text + sep
            + join_texts(node_texts(kids).drop_first(), sep),
{
    if kids.len() == 1 {
        assert(node_texts(kids)[0] == kids[0].text);
    } else if kids.len() > 1 {
        assert(node_texts(kids)[0] == kids[0].text);
    }
}

/// Order preservation: a composite node built by the aggregator has one
/// child per element, and child `i` is element `i`'s own rendering — no
/// reordering, no deduplication.
pub proof fn lemma_children_order<T: Render>(
    elements: Seq<T>,
    sep: Seq<char>,
    tag: Seq<char>,
    props: Option<serde_json::Value>,
)
    ensures
        agg_node(spec_renders(elements), sep, tag, props).children.len() == elements.len(),
        forall|i: int|
            0 <= i < elements.len() ==> agg_node(spec_renders(elements), sep, tag, props).children[i]
                == elements[i].spec_render(),
{
}

/// A row with no cells renders as exactly the text `"| |"`.
pub proof fn lemma_empty_row_grid()
    ensures
        row_grid(Seq::<Seq<char>>::empty()) == "| |"@,
{
    reveal_strlit("| |");
    assert(row_grid(Seq::<Seq<char>>::empty()) =~= "| |"@);
}

/// The shape of the row grid: for cells whose texts split into line
/// blocks `L1 .. Lk`, the grid text has exactly `max(|L1|, .., |Lk|)`
/// lines; line `i` is `grid_line` — the `k` fields, field `j` being
/// `Lj[i]` where it exists and the empty text where not, joined with
/// `" | "` and wrapped in `"| "` and `" |"`.
pub proof fn lemma_row_grid_shape(cell_texts: Seq<Seq<char>>)
    requires
        cell_texts.len() > 0,
    ensures
        max_len(split_blocks(cell_texts)) >= 1,
        split_lines(row_grid(cell_texts)) == Seq::new(
            max_len(split_blocks(cell_texts)),
            |i: int| grid_line(split_blocks(cell_texts), i),
        ),
        forall|i: int, j: int|
            0 <= j < cell_texts.len() ==> #[trigger] grid_fields(split_blocks(cell_texts), i)[j]
                == line_at(split_lines(cell_texts[j]), i),
        forall|i: int| grid_fields(split_blocks(cell_texts), i).len() == cell_texts.len(),
{
    let blocks = split_blocks(cell_texts);
    let m = max_len(blocks);
    let lines = Seq::new(m, |i: int| grid_line(blocks, i));
    lemma_split_lines_len(cell_texts[0]);
    assert(blocks[0] == split_lines(cell_texts[0]));
    lemma_max_len(blocks);
    assert(m >= 1);
    assert forall|i: int| 0 <= i < m implies !has_newline(#[trigger] lines[i]) by {
        let fields = grid_fields(blocks, i);
        assert forall|j: int| 0 <= j < fields.len() implies !has_newline(#[trigger] fields[j]) by {
            assert(blocks[j] == split_lines(cell_texts[j]));
            lemma_split_lines_flat(cell_texts[j]);
            if 0 <= i < blocks[j].len() {
                assert(fields[j] == split_lines(cell_texts[j])[i]);
            } else {
                assert(fields[j] =~= Seq::<char>::empty());
            }
        }
        assert(!has_newline(seq![' ', '|', ' ']));
        lemma_join_texts_flat(fields, seq![' ', '|', ' ']);
        assert(!has_newline(seq!['|', ' ']));
        assert(!has_newline(seq![' ', '|']));
        lemma_flat_concat(seq!['|', ' '], join_texts(fields, seq![' ', '|', ' ']));
        lemma_flat_concat(seq!['|', ' '] + join_texts(fields, seq![' ', '|', ' ']), seq![' ', '|']);
    }
    lemma_split_join_lines(lines);
}

/// A row's rendering node has exactly one child per cell, however many
/// grid lines its `text` spans.
pub proof fn lemma_row_children_per_cell(row: TableRow)
    ensures
        row.spec_render().children.len() == row.cells@.len(),
{
}

} // verus!
