//! Rendering core for a hierarchical document model.
//!
//! Every element (text runs, paragraphs, table cells, rows, tables,
//! documents) can be projected into a structured rendering node — a type
//! tag, a plain-text rendering, the children's nodes, and an opaque
//! properties payload — or into plain text alone, which is always the
//! `ascii` field of the structured node.

mod elements;
mod laws;
mod render;
mod strings;
mod textspec;

pub use elements::{Text, RunChild, Run, Paragraph, TableCellContent, TableCell, TableRowChild, TableRow, TableRowProperty, HeightRule, Delete, Insert, TableChild, Table, DocumentChild, Document};
pub use laws::{lemma_aggregated_text, lemma_children_order, lemma_empty_row_grid, lemma_row_grid_shape, lemma_row_children_per_cell};
pub use render::{JsonRender, NodeView, Render, render_children, agg_node, spec_renders};
pub use strings::split_text_lines;
pub use textspec::{join_texts, split_lines, row_grid, has_newline};

