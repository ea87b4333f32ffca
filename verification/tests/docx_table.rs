use mdbook_renderkit::docx_model::{Justify, Paragraph, ParagraphItem};
use mdbook_renderkit::docx_parts::{paragraph_from_text, RunStyle};
use mdbook_renderkit::docx_table::{paragraph_alignment, table_cell_paragraphs, TableBuilder};
use mdbook_renderkit::markdown::MdAlign;

fn run_props(p: &Paragraph) -> Vec<String> {
    match &p.items[0] {
        ParagraphItem::Run(r) => match &r.props {
            Some(v) => v.iter().map(|x| format!("{:?}", x)).collect(),
            None => vec![],
        },
        _ => panic!("run"),
    }
}

#[test]
fn column_alignments() {
    assert_eq!(paragraph_alignment(MdAlign::Left), Justify::Left);
    assert_eq!(paragraph_alignment(MdAlign::Right), Justify::Right);
    assert_eq!(paragraph_alignment(MdAlign::Center), Justify::Center);
    assert_eq!(paragraph_alignment(MdAlign::Unset), Justify::Center);
}

#[test]
fn cell_paragraph_formatting() {
    let ps = vec![paragraph_from_text("x", RunStyle::plain())];
    let out = table_cell_paragraphs(ps, false, MdAlign::Right);
    let props = out[0].props.as_ref().unwrap();
    assert_eq!(props.justification, Some(Justify::Right));
    let sp = props.spacing.unwrap();
    assert_eq!((sp.before, sp.after, sp.line, sp.auto_rule), (Some(0), Some(0), Some(240), true));
    assert!(run_props(&out[0]).is_empty());

    let ps = vec![paragraph_from_text("h", RunStyle { bold: false, italic: true, strike: false, code: false, hyperlink: false })];
    let out = table_cell_paragraphs(ps, true, MdAlign::Right);
    assert_eq!(out[0].props.as_ref().unwrap().justification, Some(Justify::Center));
    assert_eq!(run_props(&out[0]), vec!["Italic", "Bold", "BoldComplexScript"]);
}

#[test]
fn tables_are_built_row_by_row() {
    let mut t = TableBuilder::new("TableGrid", vec![MdAlign::Right, MdAlign::Unset]);
    t.set_head(true);
    t.start_row();
    t.start_cell();
    t.push_paragraph(paragraph_from_text("A", RunStyle::plain()));
    t.end_cell();
    t.start_cell();
    t.push_paragraph(paragraph_from_text("B", RunStyle::plain()));
    t.end_cell();
    t.end_row();
    t.set_head(false);
    t.start_row();
    t.start_cell();
    t.push_paragraph(paragraph_from_text("1", RunStyle::plain()));
    t.end_cell();
    t.start_cell();
    t.end_cell();
    t.start_cell();
    t.push_paragraph(paragraph_from_text("3", RunStyle::plain()));
    t.end_row();
    let table = t.into_table();
    assert_eq!(table.style, "TableGrid");
    assert_eq!(table.column_count, 3);
    assert_eq!(table.cell_width, 2740);
    assert_eq!(table.rows.len(), 2);
    let head = &table.rows[0];
    assert!(head.is_head);
    assert!(head.cells.iter().all(|c| c.is_head));
    assert!(head.cells.iter().all(|c| c.shading.as_deref() == Some("CCCCCC")));
    assert_eq!(run_props(&head.cells[0].paragraphs[0]), vec!["Bold", "BoldComplexScript"]);
    assert_eq!(head.cells[0].paragraphs[0].props.as_ref().unwrap().justification, Some(Justify::Center));
    let body = &table.rows[1];
    assert!(!body.is_head);
    assert_eq!(body.cells.len(), 3);
    assert!(body.cells.iter().all(|c| c.shading.is_none()));
    assert_eq!(body.cells[0].paragraphs[0].props.as_ref().unwrap().justification, Some(Justify::Right));
    assert_eq!(body.cells[1].paragraphs.len(), 1);
    assert!(body.cells[1].paragraphs[0].items.is_empty());
    assert_eq!(body.cells[1].paragraphs[0].props.as_ref().unwrap().justification, Some(Justify::Center));
    assert_eq!(body.cells[2].paragraphs[0].props.as_ref().unwrap().justification, Some(Justify::Center));
    assert!(run_props(&body.cells[0].paragraphs[0]).is_empty());
}

#[test]
fn empty_tables_have_one_column() {
    let mut t = TableBuilder::new("T", vec![]);
    t.start_row();
    t.end_row();
    let table = t.into_table();
    assert_eq!(table.column_count, 1);
    assert_eq!(table.cell_width, 8220);
    assert!(table.rows.is_empty());
}
