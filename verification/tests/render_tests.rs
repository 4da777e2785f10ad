//! Tests of the rendering core: the generic aggregator, the table-row
//! grid reconciler, and the composite element wrappers.

use docx_core::Document;
use docx_core::HeightRule;
use docx_core::Paragraph;
use docx_core::Render;
use docx_core::Run;
use docx_core::Table;
use docx_core::TableCell;
use docx_core::TableRow;
use docx_core::Text;
use docx_core::render_children;
use docx_core::split_text_lines;
use docx_core::Delete;
use docx_core::Insert;

#[test]
fn test_multi_line_table_row_render() {
    let row = TableRow::new(vec![
        TableCell::new().add_paragraph(
            Paragraph::new().add_run(Run::new().add_text("hello").add_text("twice")),
        ),
        TableCell::new().add_paragraph(Paragraph::new().add_run(Run::new().add_text("world"))),
    ]);

    assert_eq!(row.render_ascii(), "| hello | world |\n| twice |  |")
}

#[test]
fn test_empty_row_renders_placeholder() {
    let row = TableRow::new(vec![]);
    assert_eq!(row.render_ascii(), "| |");
    let node = row.render_ascii_json();
    assert_eq!(node.node_type, "TableRow");
    assert_eq!(node.ascii, "| |");
    assert_eq!(node.children.len(), 0);
    assert!(node.properties.is_none());
}

#[test]
fn test_single_empty_cell_row() {
    let row = TableRow::new(vec![TableCell::new()]);
    assert_eq!(row.render_ascii(), "|  |");
}

#[test]
fn test_row_grid_two_cells() {
    let row = TableRow::new(vec![
        TableCell::new()
            .add_paragraph(Paragraph::new().add_run(Run::new().add_text("a").add_text("b"))),
        TableCell::new().add_paragraph(Paragraph::new().add_run(Run::new().add_text("c"))),
    ]);
    assert_eq!(row.render_ascii(), "| a | c |\n| b |  |");
}

#[test]
fn test_row_children_one_per_cell() {
    let row = TableRow::new(vec![
        TableCell::new()
            .add_paragraph(Paragraph::new().add_run(Run::new().add_text("a").add_text("b"))),
        TableCell::new().add_paragraph(Paragraph::new().add_run(Run::new().add_text("c"))),
    ]);
    let node = row.render_ascii_json();
    // two grid lines in the text, but still one child node per cell
    assert_eq!(node.ascii.split('\n').count(), 2);
    assert_eq!(node.children.len(), 2);
    // each cell node keeps its own unflattened text
    assert_eq!(node.children[0].ascii, "a\nb");
    assert_eq!(node.children[1].ascii, "c");
}

#[test]
fn test_table_nests_empty_row() {
    let table = Table::new(vec![TableRow::new(vec![])]);
    let node = table.render_ascii_json();
    assert_eq!(node.node_type, "Table");
    assert_eq!(node.children.len(), 1);
    assert_eq!(node.children[0].node_type, "TableRow");
    assert_eq!(node.children[0].ascii, "| |");
    assert!(!node.children[0].ascii.contains('\n'));
    assert_eq!(node.ascii, "| |");
}

#[test]
fn test_table_nests_single_empty_cell_row() {
    let table = Table::new(vec![TableRow::new(vec![TableCell::new()
        .add_paragraph(Paragraph::new())])]);
    let node = table.render_ascii_json();
    assert_eq!(node.children.len(), 1);
    assert_eq!(node.children[0].ascii, "|  |");
    assert_eq!(node.ascii, "|  |");
}

#[test]
fn test_table_stacks_row_grids() {
    let table = Table::new(vec![TableRow::new(vec![]), TableRow::new(vec![])]);
    assert_eq!(table.render_ascii(), "| |\n| |");
}

#[test]
fn test_text_leaf_node() {
    let node = Text::new("Hello").render_ascii_json();
    assert_eq!(node.node_type, "Text");
    assert_eq!(node.ascii, "Hello");
    assert_eq!(node.children.len(), 0);
    assert!(node.properties.is_none());
}

#[test]
fn test_aggregator_joins_texts() {
    let fragments = vec![Text::new("a"), Text::new("b"), Text::new("c")];
    let node = render_children(&fragments, ", ", "List", None);
    assert_eq!(node.node_type, "List");
    assert_eq!(node.ascii, "a, b, c");
    assert_eq!(node.children.len(), 3);
}

#[test]
fn test_aggregator_empty_and_single() {
    let none: Vec<Text> = vec![];
    assert_eq!(render_children(&none, ", ", "List", None).ascii, "");
    let one = vec![Text::new("only")];
    assert_eq!(render_children(&one, ", ", "List", None).ascii, "only");
}

#[test]
fn test_aggregator_carries_properties_verbatim() {
    let fragments = vec![Text::new("x")];
    let payload = serde_json::Value::String(String::from("meta"));
    let node = render_children(&fragments, "", "Tagged", Some(payload.clone()));
    assert_eq!(node.properties, Some(payload));
}

#[test]
fn test_children_keep_document_order() {
    let p = Paragraph::new()
        .add_run(Run::new().add_text("first"))
        .add_run(Run::new().add_text("second"))
        .add_run(Run::new().add_text("third"));
    let node = p.render_ascii_json();
    assert_eq!(node.node_type, "Paragraph");
    assert_eq!(node.children.len(), 3);
    assert_eq!(node.children[0].ascii, "first");
    assert_eq!(node.children[1].ascii, "second");
    assert_eq!(node.children[2].ascii, "third");
    // paragraph joins runs with no separator
    assert_eq!(node.ascii, "firstsecondthird");
}

#[test]
fn test_render_ascii_is_json_text_field() {
    let row = TableRow::new(vec![TableCell::new().add_paragraph(
        Paragraph::new().add_run(Run::new().add_text("x").add_text("y")),
    )]);
    assert_eq!(row.render_ascii(), row.render_ascii_json().ascii);
    let p = Paragraph::new().add_run(Run::new().add_text("z"));
    assert_eq!(p.render_ascii(), p.render_ascii_json().ascii);
    let d = Document::new().add_paragraph(p);
    assert_eq!(d.render_ascii(), d.render_ascii_json().ascii);
}

#[test]
fn test_document_stacks_children() {
    let d = Document::new()
        .add_paragraph(Paragraph::new().add_run(Run::new().add_text("intro")))
        .add_table(Table::new(vec![TableRow::new(vec![])]));
    let node = d.render_ascii_json();
    assert_eq!(node.node_type, "Document");
    assert_eq!(node.ascii, "intro\n| |");
    assert_eq!(node.children.len(), 2);
}

#[test]
fn test_split_text_lines() {
    let empty: Vec<String> = split_text_lines("");
    assert_eq!(empty, vec![String::new()]);
    assert_eq!(split_text_lines("a\nb"), vec!["a", "b"]);
    assert_eq!(split_text_lines("a\n"), vec!["a", ""]);
    assert_eq!(split_text_lines("\n"), vec!["", ""]);
    assert_eq!(split_text_lines("one"), vec!["one"]);
}

#[test]
fn test_row_new_collects_cells() {
    let row = TableRow::new(vec![TableCell::new(), TableCell::new()]);
    assert_eq!(row.cells.len(), 2);
    assert!(!row.has_numbering);
    let numbered = TableRow::new(vec![
        TableCell::new(),
        TableCell { children: vec![], has_numbering: true },
    ]);
    assert!(numbered.has_numbering);
}

#[test]
fn test_row_builders_set_properties() {
    let row = TableRow::new(vec![])
        .grid_after(2)
        .grid_before(1)
        .height_rule(HeightRule::AtLeast)
        .cant_split();
    assert_eq!(row.property.grid_after, Some(2));
    assert_eq!(row.property.grid_before, Some(1));
    assert!(matches!(row.property.height_rule, Some(HeightRule::AtLeast)));
    assert!(row.property.cant_split);
    assert!(row.property.del.is_none());
    assert!(row.property.ins.is_none());
}

#[test]
fn test_row_tracked_marks() {
    let row = TableRow::new(vec![])
        .delete(Delete::new("bob", "2024-01-01"))
        .insert(Insert::new("eve", "2024-01-02"));
    let del = row.property.del.as_ref().unwrap();
    assert_eq!(del.author, "bob");
    assert_eq!(del.date, "2024-01-01");
    let ins = row.property.ins.as_ref().unwrap();
    assert_eq!(ins.author, "eve");
    assert_eq!(ins.date, "2024-01-02");
}
