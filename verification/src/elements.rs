//! The document elements and their renderings: text runs as leaves, and
//! paragraphs, cells, rows, tables and documents as composites. All
//! composites but the table row aggregate their children with a
//! separator; the table row aligns its cells' multi-line texts into one
//! rectangular grid.

use vstd::prelude::*;
use vstd::string::StringExecFns;

use crate::render::agg_node;
use crate::render::lemma_node_views;
use crate::render::node_texts;
use crate::render::render_children;
use crate::render::spec_renders;
use crate::render::JsonRender;
use crate::render::NodeView;
use crate::render::Render;
use crate::strings::split_text_lines;
use crate::textspec::grid_fields;
use crate::textspec::grid_line;
use crate::textspec::join_texts;
use crate::textspec::lemma_join_texts_push;
use crate::textspec::max_len;
use crate::textspec::row_grid;
use crate::textspec::split_blocks;
use crate::textspec::split_lines;

verus! {

/// A leaf element: one literal text fragment.
pub struct Text {
    pub text: String,
}

impl Text {
    /// A fragment holding the given characters.
    pub fn new(text: &str) -> (t: Text)
        ensures
            t.text@ == text@,
    {
        Text { text: String::from_str(text) }
    }
}

impl Render for Text {
    /// A leaf renders as its literal text: no children, no properties.
    open spec fn spec_render(&self) -> NodeView {
        NodeView { tag: "Text"@, text: self.text@, children: Seq::empty(), props: None }
    }

    fn render_ascii_json(&self) -> (r: JsonRender) {
        JsonRender::leaf("Text", self.text.as_str())
    }
}

/// What a run may directly hold.
pub enum RunChild {
    Text(Text),
}

impl Render for RunChild {
    open spec fn spec_render(&self) -> NodeView {
        match self {
            RunChild::Text(t) => t.spec_render(),
        }
    }

    fn render_ascii_json(&self) -> (r: JsonRender) {
        match self {
            RunChild::Text(t) => t.render_ascii_json(),
        }
    }
}

/// A run of text fragments; each fragment renders on its own line.
pub struct Run {
    pub children: Vec<RunChild>,
}

impl Run {
    /// A run with no fragments.
    pub fn new() -> (r: Run)
        ensures
            r.children@.len() == 0,
    {
        Run { children: Vec::new() }
    }

    /// The run extended by one text fragment, after the existing ones.
    pub fn add_text(self, text: &str) -> (r: Run)
        ensures
            r.children@.len() == self.children@.len() + 1,
            forall|i: int| 0 <= i < self.children@.len() ==> r.children@[i] == self.children@[i],
            r.children@.last() matches RunChild::Text(t) && t.text@ == text@,
    {
        let mut children = self.children;
        children.push(RunChild::Text(Text::new(text)));
        Run { children }
    }
}

impl Render for Run {
    /// A run aggregates its fragments with a line break between them.
    open spec fn spec_render(&self) -> NodeView {
        agg_node(spec_renders(self.children@), "\n"@, "Run"@, None)
    }

    fn render_ascii_json(&self) -> (r: JsonRender) {
        render_children(&self.children, "\n", "Run", None)
    }
}

/// A paragraph of runs, concatenated with no separator.
pub struct Paragraph {
    pub children: Vec<Run>,
}

impl Paragraph {
    /// A paragraph with no runs.
    pub fn new() -> (p: Paragraph)
        ensures
            p.children@.len() == 0,
    {
        Paragraph { children: Vec::new() }
    }

    /// The paragraph extended by one run, after the existing ones.
    pub fn add_run(self, run: Run) -> (p: Paragraph)
        ensures
            p.children@ == self.children@.push(run),
    {
        let mut children = self.children;
        children.push(run);
        Paragraph { children }
    }
}

impl Render for Paragraph {
    /// A paragraph aggregates its runs with the empty separator.
    open spec fn spec_render(&self) -> NodeView {
        agg_node(spec_renders(self.children@), ""@, "Paragraph"@, None)
    }

    fn render_ascii_json(&self) -> (r: JsonRender) {
        render_children(&self.children, "", "Paragraph", None)
    }
}

/// What a table cell may directly hold.
pub enum TableCellContent {
    Paragraph(Paragraph),
}

impl Render for TableCellContent {
    open spec fn spec_render(&self) -> NodeView {
        match self {
            TableCellContent::Paragraph(p) => p.spec_render(),
        }
    }

    fn render_ascii_json(&self) -> (r: JsonRender) {
        match self {
            TableCellContent::Paragraph(p) => p.render_ascii_json(),
        }
    }
}

/// A table cell: paragraphs stacked with line breaks. Its text may hold
/// line breaks; the owning row aligns them into its grid.
pub struct TableCell {
    pub children: Vec<TableCellContent>,
    pub has_numbering: bool,
}

impl TableCell {
    /// A cell with no content.
    pub fn new() -> (c: TableCell)
        ensures
            c.children@.len() == 0,
            !c.has_numbering,
    {
        TableCell { children: Vec::new(), has_numbering: false }
    }

    /// The cell extended by one paragraph, after the existing ones.
    pub fn add_paragraph(self, p: Paragraph) -> (c: TableCell)
        ensures
            c.children@ == self.children@.push(TableCellContent::Paragraph(p)),
            c.has_numbering == self.has_numbering,
    {
        let mut children = self.children;
        children.push(TableCellContent::Paragraph(p));
        TableCell { children, has_numbering: self.has_numbering }
    }
}

impl Render for TableCell {
    /// A cell aggregates its paragraphs with a line break between them.
    open spec fn spec_render(&self) -> NodeView {
        agg_node(spec_renders(self.children@), "\n"@, "TableCell"@, None)
    }

    fn render_ascii_json(&self) -> (r: JsonRender) {
        render_children(&self.children, "\n", "TableCell", None)
    }
}

/// What a table row may directly hold: a closed tag-set, today only a
/// table cell, kept open for future kinds. Every operation dispatches by
/// exhaustive matching to the wrapped element.
pub enum TableRowChild {
    TableCell(TableCell),
}

impl Render for TableRowChild {
    open spec fn spec_render(&self) -> NodeView {
        match self {
            TableRowChild::TableCell(c) => c.spec_render(),
        }
    }

    fn render_ascii_json(&self) -> (r: JsonRender) {
        match self {
            TableRowChild::TableCell(c) => c.render_ascii_json(),
        }
    }
}

/// How a row's height is applied.
pub enum HeightRule {
    Auto,
    AtLeast,
    Exact,
}

/// A tracked deletion mark on a row.
pub struct Delete {
    pub author: String,
    pub date: String,
}

impl Delete {
    pub fn new(author: &str, date: &str) -> (d: Delete)
        ensures
            d.author@ == author@,
            d.date@ == date@,
    {
        Delete { author: String::from_str(author), date: String::from_str(date) }
    }
}

/// A tracked insertion mark on a row.
pub struct Insert {
    pub author: String,
    pub date: String,
}

impl Insert {
    pub fn new(author: &str, date: &str) -> (i: Insert)
        ensures
            i.author@ == author@,
            i.date@ == date@,
    {
        Insert { author: String::from_str(author), date: String::from_str(date) }
    }
}

/// The element-specific settings of a table row. The renderer never reads
/// them; the builder methods of `TableRow` fill them.
pub struct TableRowProperty {
    pub grid_after: Option<u32>,
    pub grid_before: Option<u32>,
    pub height_rule: Option<HeightRule>,
    pub del: Option<Delete>,
    pub ins: Option<Insert>,
    pub cant_split: bool,
}

impl TableRowProperty {
    /// A property set with nothing set.
    pub fn new() -> (p: TableRowProperty)
        ensures
            p.grid_after is None,
            p.grid_before is None,
            p.height_rule is None,
            p.del is None,
            p.ins is None,
            !p.cant_split,
    {
        TableRowProperty {
            grid_after: None,
            grid_before: None,
            height_rule: None,
            del: None,
            ins: None,
            cant_split: false,
        }
    }
}

/// A table row: an ordered sequence of cells, with row-level settings.
pub struct TableRow {
    pub cells: Vec<TableRowChild>,
    pub has_numbering: bool,
    pub property: TableRowProperty,
}

impl TableRow {
    /// A row over the given cells, in order; it carries numbering when
    /// any cell does, and starts with nothing set in its properties.
    pub fn new(cells: Vec<TableCell>) -> (row: TableRow)
        ensures
            row.cells@.len() == cells@.len(),
            forall|i: int|
                0 <= i < cells@.len() ==> row.cells@[i] == TableRowChild::TableCell(cells@[i]),
            row.has_numbering == exists|i: int|
                0 <= i < cells@.len() && (#[trigger] cells@[i]).has_numbering,
            row.property.grid_after is None,
            row.property.grid_before is None,
            row.property.height_rule is None,
            row.property.del is None,
            row.property.ins is None,
            !row.property.cant_split,
    {
        let ghost orig = cells@;
        let mut cells = cells;
        let mut row_cells: Vec<TableRowChild> = Vec::new();
        let mut has_numbering = false;
        while cells.len() > 0
            invariant
                row_cells@.len() + cells@.len() == orig.len(),
                cells@ == orig.subrange(row_cells@.len() as int, orig.len() as int),
                forall|i: int|
                    0 <= i < row_cells@.len() ==> row_cells@[i] == TableRowChild::TableCell(
                        orig[i],
                    ),
                has_numbering == exists|i: int|
                    0 <= i < row_cells@.len() && (#[trigger] orig[i]).has_numbering,
            decreases cells@.len(),
        {
            let ghost k = row_cells@.len() as int;
            let c = cells.remove(0);
            proof {
                assert(c == orig[k]);
                assert(cells@ =~= orig.subrange(k + 1, orig.len() as int));
            }
            if c.has_numbering {
                has_numbering = true;
            }
            row_cells.push(TableRowChild::TableCell(c));
        }
        TableRow { cells: row_cells, has_numbering, property: TableRowProperty::new() }
    }

    /// The row with the count of omitted grids after it set.
    pub fn grid_after(self, grid_after: u32) -> (row: TableRow)
        ensures
            row.cells == self.cells,
            row.has_numbering == self.has_numbering,
            row.property == (TableRowProperty { grid_after: Some(grid_after), ..self.property }),
    {
        let mut row = self;
        row.property.grid_after = Some(grid_after);
        row
    }

    /// The row with the count of omitted grids before it set.
    pub fn grid_before(self, grid_before: u32) -> (row: TableRow)
        ensures
            row.cells == self.cells,
            row.has_numbering == self.has_numbering,
            row.property == (TableRowProperty { grid_before: Some(grid_before), ..self.property }),
    {
        let mut row = self;
        row.property.grid_before = Some(grid_before);
        row
    }

    /// The row with its height rule set.
    pub fn height_rule(self, r: HeightRule) -> (row: TableRow)
        ensures
            row.cells == self.cells,
            row.has_numbering == self.has_numbering,
            row.property == (TableRowProperty { height_rule: Some(r), ..self.property }),
    {
        let mut row = self;
        row.property.height_rule = Some(r);
        row
    }

    /// The row with a tracked deletion mark set.
    pub fn delete(self, d: Delete) -> (row: TableRow)
        ensures
            row.cells == self.cells,
            row.has_numbering == self.has_numbering,
            row.property == (TableRowProperty { del: Some(d), ..self.property }),
    {
        let mut row = self;
        row.property.del = Some(d);
        row
    }

    /// The row with a tracked insertion mark set.
    pub fn insert(self, i: Insert) -> (row: TableRow)
        ensures
            row.cells == self.cells,
            row.has_numbering == self.has_numbering,
            row.property == (TableRowProperty { ins: Some(i), ..self.property }),
    {
        let mut row = self;
        row.property.ins = Some(i);
        row
    }

    /// The row marked as not splittable across pages.
    pub fn cant_split(self) -> (row: TableRow)
        ensures
            row.cells == self.cells,
            row.has_numbering == self.has_numbering,
            row.property == (TableRowProperty { cant_split: true, ..self.property }),
    {
        let mut row = self;
        row.property.cant_split = true;
        row
    }
}

impl Render for TableRow {
    /// A row's children are its cells' nodes; its text is the grid that
    /// aligns the cells' multi-line texts, `row_grid`.
    open spec fn spec_render(&self) -> NodeView {
        NodeView {
            tag: "TableRow"@,
            text: row_grid(node_texts(spec_renders(self.cells@))),
            children: spec_renders(self.cells@),
            props: None,
        }
    }

    /// Each cell in the row carries its own line breaks; the row
    /// reconciles the cells' line blocks into one aligned grid.
    fn render_ascii_json(&self) -> (r: JsonRender) {
        let ghost kids = spec_renders(self.cells@);
        let ghost texts = node_texts(kids);
        let ghost sblocks = split_blocks(texts);
        let n = self.cells.len();
        let mut nodes: Vec<JsonRender> = Vec::new();
        let mut blocks: Vec<Vec<String>> = Vec::new();
        let mut idx: usize = 0;
        while idx < n
            invariant
                n == self.cells@.len(),
                idx <= n,
                kids == spec_renders(self.cells@),
                texts == node_texts(kids),
                sblocks == split_blocks(texts),
                nodes@.len() == idx,
                blocks@.len() == idx,
                forall|i: int| 0 <= i < idx ==> #[trigger] nodes@[i]@ == kids[i],
                forall|i: int|
                    0 <= i < idx ==> (#[trigger] blocks@[i])@.map_values(|l: String| l@)
                        == sblocks[i],
            decreases n - idx,
        {
            let node = self.cells[idx].render_ascii_json();
            let lines = split_text_lines(node.ascii.as_str());
            proof {
                assert(kids[idx as int] == self.cells@[idx as int].spec_render());
                assert(texts[idx as int] == kids[idx as int].text);
                assert(sblocks[idx as int] == split_lines(texts[idx as int]));
            }
            nodes.push(node);
            blocks.push(lines);
            idx += 1;
        }
        if n == 0 {
            let r = JsonRender::leaf("TableRow", "| |");
            proof {
                reveal_strlit("| |");
                assert("| |"@ =~= seq!['|', ' ', '|']);
                assert(texts =~= Seq::<Seq<char>>::empty());
                assert(r@.children =~= kids);
                assert(r@ == self.spec_render());
            }
            return r;
        }
        let mut max_rows: usize = 0;
        let mut j: usize = 0;
        while j < n
            invariant
                j <= n,
                n == blocks@.len(),
                sblocks.len() == n,
                forall|i: int|
                    0 <= i < n ==> (#[trigger] blocks@[i])@.map_values(|l: String| l@)
                        == sblocks[i],
                max_rows == max_len(sblocks.take(j as int)),
            decreases n - j,
        {
            proof {
                assert(sblocks.take(j + 1 as int).drop_last() =~= sblocks.take(j as int));
                assert(sblocks.take(j + 1 as int).last() == sblocks[j as int]);
                assert(blocks@[j as int]@.len() == sblocks[j as int].len());
            }
            if blocks[j].len() > max_rows {
                max_rows = blocks[j].len();
            }
            j += 1;
        }
        proof {
            assert(sblocks.take(n as int) =~= sblocks);
        }
        let ghost nl = seq!['\n'];
        let ghost fsep = seq![' ', '|', ' '];
        let mut ascii: String = String::new();
        let mut i: usize = 0;
        proof {
            assert(Seq::new(0, |r: int| grid_line(sblocks, r)) =~= Seq::<Seq<char>>::empty());
        }
        while i < max_rows
            invariant
                i <= max_rows,
                n == blocks@.len(),
                n > 0,
                sblocks.len() == n,
                max_rows == max_len(sblocks),
                forall|k: int|
                    0 <= k < n ==> (#[trigger] blocks@[k])@.map_values(|l: String| l@)
                        == sblocks[k],
                nl == seq!['\n'],
                fsep == seq![' ', '|', ' '],
                ascii@ == join_texts(Seq::new(i as nat, |r: int| grid_line(sblocks, r)), nl),
            decreases max_rows - i,
        {
            let ghost lines_before = Seq::new(i as nat, |r: int| grid_line(sblocks, r));
            if i > 0 {
                ascii.append("\n");
            }
            let mut line = String::from_str("| ");
            proof {
                reveal_strlit("| ");
                assert(line@ =~= seq!['|', ' ']);
                assert(grid_fields(sblocks, i as int).take(0) =~= Seq::<Seq<char>>::empty());
                assert(line@ =~= seq!['|', ' '] + join_texts(
                    grid_fields(sblocks, i as int).take(0),
                    fsep,
                ));
            }
            let mut j2: usize = 0;
            while j2 < n
                invariant
                    j2 <= n,
                    0 <= i < max_rows,
                    n == blocks@.len(),
                    sblocks.len() == n,
                    forall|k: int|
                        0 <= k < n ==> (#[trigger] blocks@[k])@.map_values(|l: String| l@)
                            == sblocks[k],
                    fsep == seq![' ', '|', ' '],
                    line@ == seq!['|', ' '] + join_texts(
                        grid_fields(sblocks, i as int).take(j2 as int),
                        fsep,
                    ),
                decreases n - j2,
            {
                let ghost fields_before = grid_fields(sblocks, i as int).take(j2 as int);
                let ghost field = grid_fields(sblocks, i as int)[j2 as int];
                if j2 > 0 {
                    line.append(" | ");
                    proof {
                        reveal_strlit(" | ");
                        assert(" | "@ =~= fsep);
                    }
                }
                if i < blocks[j2].len() {
                    line.append(blocks[j2][i].as_str());
                    proof {
                        assert(blocks@[j2 as int]@[i as int]@ == sblocks[j2 as int][i as int]);
                        assert(field == sblocks[j2 as int][i as int]);
                    }
                } else {
                    proof {
                        assert(blocks@[j2 as int]@.len() == sblocks[j2 as int].len());
                        assert(field =~= Seq::<char>::empty());
                    }
                }
                proof {
                    lemma_join_texts_push(fields_before, fsep, field);
                    assert(grid_fields(sblocks, i as int).take(j2 + 1 as int) =~= fields_before.push(
                        field,
                    ));
                    if j2 > 0 {
                        assert(line@ =~= seq!['|', ' '] + (join_texts(fields_before, fsep) + fsep
                            + field));
                    } else {
                        assert(line@ =~= seq!['|', ' '] + field);
                    }
                }
                j2 += 1;
            }
            line.append(" |");
            ascii.append(line.as_str());
            proof {
                reveal_strlit(" |");
                assert(" |"@ =~= seq![' ', '|']);
                assert(grid_fields(sblocks, i as int).take(n as int) =~= grid_fields(
                    sblocks,
                    i as int,
                ));
                assert(line@ =~= grid_line(sblocks, i as int));
                reveal_strlit("\n");
                assert("\n"@ =~= nl);
                lemma_join_texts_push(lines_before, nl, grid_line(sblocks, i as int));
                assert(Seq::new((i + 1) as nat, |r: int| grid_line(sblocks, r))
                    =~= lines_before.push(grid_line(sblocks, i as int)));
            }
            i += 1;
        }
        let r = JsonRender {
            node_type: String::from_str("TableRow"),
            ascii,
            children: nodes,
            properties: None,
        };
        proof {
            lemma_node_views(r.children@);
            assert(r@.children =~= kids);
            assert(r@.text =~= row_grid(texts));
            assert(r@ == self.spec_render());
        }
        r
    }
}

/// What a table may directly hold.
pub enum TableChild {
    TableRow(TableRow),
}

impl Render for TableChild {
    open spec fn spec_render(&self) -> NodeView {
        match self {
            TableChild::TableRow(r) => r.spec_render(),
        }
    }

    fn render_ascii_json(&self) -> (r: JsonRender) {
        match self {
            TableChild::TableRow(r) => r.render_ascii_json(),
        }
    }
}

/// A table: rows stacked with line breaks. Each row's text is already a
/// pre-aligned grid, so the table-level join is plain line stacking.
pub struct Table {
    pub rows: Vec<TableChild>,
}

impl Table {
    /// A table over the given rows, in order.
    pub fn new(rows: Vec<TableRow>) -> (t: Table)
        ensures
            t.rows@.len() == rows@.len(),
            forall|i: int|
                0 <= i < rows@.len() ==> t.rows@[i] == TableChild::TableRow(rows@[i]),
    {
        let ghost orig = rows@;
        let mut rows = rows;
        let mut table_rows: Vec<TableChild> = Vec::new();
        while rows.len() > 0
            invariant
                table_rows@.len() + rows@.len() == orig.len(),
                rows@ == orig.subrange(table_rows@.len() as int, orig.len() as int),
                forall|i: int|
                    0 <= i < table_rows@.len() ==> table_rows@[i] == TableChild::TableRow(orig[i]),
            decreases rows@.len(),
        {
            let ghost k = table_rows@.len() as int;
            let row = rows.remove(0);
            proof {
                assert(row == orig[k]);
                assert(rows@ =~= orig.subrange(k + 1, orig.len() as int));
            }
            table_rows.push(TableChild::TableRow(row));
        }
        Table { rows: table_rows }
    }
}

impl Render for Table {
    /// A table aggregates its rows with a line break between them.
    open spec fn spec_render(&self) -> NodeView {
        agg_node(spec_renders(self.rows@), "\n"@, "Table"@, None)
    }

    fn render_ascii_json(&self) -> (r: JsonRender) {
        render_children(&self.rows, "\n", "Table", None)
    }
}

/// What a document may directly hold.
pub enum DocumentChild {
    Paragraph(Paragraph),
    Table(Table),
}

impl Render for DocumentChild {
    open spec fn spec_render(&self) -> NodeView {
        match self {
            DocumentChild::Paragraph(p) => p.spec_render(),
            DocumentChild::Table(t) => t.spec_render(),
        }
    }

    fn render_ascii_json(&self) -> (r: JsonRender) {
        match self {
            DocumentChild::Paragraph(p) => p.render_ascii_json(),
            DocumentChild::Table(t) => t.render_ascii_json(),
        }
    }
}

/// A document: paragraphs and tables stacked with line breaks.
pub struct Document {
    pub children: Vec<DocumentChild>,
}

impl Document {
    /// A document with no children.
    pub fn new() -> (d: Document)
        ensures
            d.children@.len() == 0,
    {
        Document { children: Vec::new() }
    }

    /// The document extended by one paragraph, after the existing children.
    pub fn add_paragraph(self, p: Paragraph) -> (d: Document)
        ensures
            d.children@ == self.children@.push(DocumentChild::Paragraph(p)),
    {
        let mut children = self.children;
        children.push(DocumentChild::Paragraph(p));
        Document { children }
    }

    /// The document extended by one table, after the existing children.
    pub fn add_table(self, t: Table) -> (d: Document)
        ensures
            d.children@ == self.children@.push(DocumentChild::Table(t)),
    {
        let mut children = self.children;
        children.push(DocumentChild::Table(t));
        Document { children }
    }
}

impl Render for Document {
    /// A document aggregates its children with a line break between them.
    open spec fn spec_render(&self) -> NodeView {
        agg_node(spec_renders(self.children@), "\n"@, "Document"@, None)
    }

    fn render_ascii_json(&self) -> (r: JsonRender) {
        render_children(&self.children, "\n", "Document", None)
    }
}

} // verus!

