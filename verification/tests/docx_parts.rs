use mdbook_renderkit::docx_model::{
    FieldCharKind, Justify, LinkTarget, Paragraph, ParagraphItem, Run, RunItem, RunProp,
};
use mdbook_renderkit::docx_parts::{
    block_properties, code_paragraph, code_run_properties, code_text_run, cover_title_paragraph,
    field_char_run, field_code_run, heading_paragraph_with_bookmark, hyperlink, page_break_paragraph,
    paragraph_from_text, paragraph_properties, run_properties, tab_run, text_needs_preserve, text_run,
    toc_entry_properties, toc_heading_paragraph, BookmarkRef, CodeRun, CodeRunStyle, RunStyle,
};
use mdbook_renderkit::docx_style::{DocxStyles, ParagraphKind};

fn props_names(p: &Option<Vec<RunProp>>) -> Vec<String> {
    match p {
        None => vec![],
        Some(v) => v.iter().map(|x| format!("{:?}", x)).collect(),
    }
}

fn text_of(r: &Run) -> (String, bool) {
    match &r.item {
        RunItem::Text(t, p) => (t.clone(), *p),
        other => panic!("not text: {:?}", other),
    }
}

fn only_run(p: &Paragraph, i: usize) -> &Run {
    match &p.items[i] {
        ParagraphItem::Run(r) => r,
        other => panic!("not a run: {:?}", other),
    }
}

#[test]
fn preserve_space_detection() {
    assert!(text_needs_preserve(" a"));
    assert!(text_needs_preserve("a "));
    assert!(text_needs_preserve("a  b"));
    assert!(text_needs_preserve("\ta"));
    assert!(!text_needs_preserve("a b"));
    assert!(!text_needs_preserve(""));
}

#[test]
fn run_properties_in_order() {
    assert!(run_properties(RunStyle::plain()).is_none());
    let all = RunStyle { bold: true, italic: true, strike: true, code: true, hyperlink: true };
    assert_eq!(
        props_names(&run_properties(all)),
        vec![
            "Bold".to_string(),
            "Italic".to_string(),
            "Strike".to_string(),
            "RunStyle(\"Hyperlink\")".to_string(),
            "Color(\"0563C1\")".to_string(),
            "CodeFonts".to_string(),
            "Shading(\"F6F8FA\")".to_string(),
        ]
    );
    let r = text_run(" x", RunStyle { bold: false, italic: true, strike: false, code: false, hyperlink: false });
    assert_eq!(text_of(&r), (" x".to_string(), true));
    assert_eq!(props_names(&r.props), vec!["Italic".to_string()]);
}

#[test]
fn special_runs() {
    assert!(matches!(tab_run().item, RunItem::Tab));
    assert!(tab_run().props.is_none());
    assert!(matches!(field_char_run(FieldCharKind::Begin, true).item, RunItem::FieldChar(FieldCharKind::Begin, true)));
    match field_code_run(" TOC ").item {
        RunItem::FieldCode(s) => assert_eq!(s, " TOC "),
        _ => panic!("field code"),
    }
    let p = page_break_paragraph();
    assert!(p.props.is_none());
    assert_eq!(p.items.len(), 1);
    assert!(matches!(only_run(&p, 0).item, RunItem::PageBreak));
}

#[test]
fn block_paragraph_properties() {
    let p = block_properties(Some("ListParagraph"), ParagraphKind::List, 1, Some(2), Some(10));
    assert_eq!(p.style, Some("ListParagraph".to_string()));
    assert_eq!(p.indentation.unwrap().left, Some(1260));
    assert_eq!(p.numbering, Some((1, 10)));
    assert_eq!(p.shading, None);
    let p = block_properties(None, ParagraphKind::Code, 0, None, None);
    assert_eq!(p.style, None);
    assert!(p.indentation.is_none());
    assert_eq!(p.shading, Some("F6F8FA".to_string()));
    let p = block_properties(None, ParagraphKind::List, 0, Some(12), Some(1));
    assert_eq!(p.numbering, Some((8, 1)));
    let p = block_properties(None, ParagraphKind::List, 0, Some(0), Some(1));
    assert_eq!(p.numbering, Some((0, 1)));
    assert!(p.indentation.is_none());
    let p = paragraph_properties("Quote");
    assert_eq!(p.style, Some("Quote".to_string()));
    assert!(p.numbering.is_none() && p.spacing.is_none() && p.dot_tab.is_none());
}

#[test]
fn code_runs_and_paragraphs() {
    let style = CodeRunStyle { color: Some("A1B2C3".to_string()), bold: true, italic: true, underline: true };
    assert_eq!(
        code_run_properties(&style).iter().map(|x| format!("{:?}", x)).collect::<Vec<_>>(),
        vec!["Bold", "Italic", "Underline", "Color(\"A1B2C3\")", "CodeFonts"]
    );
    let r = code_text_run("  x", &CodeRunStyle::plain());
    assert_eq!(text_of(&r), ("  x".to_string(), true));
    assert_eq!(props_names(&r.props), vec!["CodeFonts".to_string()]);

    let styles = DocxStyles::default_styles();
    let p = code_paragraph(&vec![], "F6F8FA", true, &styles);
    assert_eq!(p.items.len(), 1);
    assert_eq!(text_of(only_run(&p, 0)), (String::new(), true));
    let props = p.props.unwrap();
    assert_eq!(props.style, Some("NoSpacing".to_string()));
    assert_eq!(props.shading, Some("F6F8FA".to_string()));
    let ind = props.indentation.unwrap();
    assert_eq!((ind.left, ind.right), (Some(200), Some(200)));
    let sp = props.spacing.unwrap();
    assert_eq!((sp.before, sp.after, sp.line, sp.auto_rule), (Some(0), Some(160), Some(240), true));

    let line = vec![
        CodeRun { text: "fn".to_string(), style: style.clone() },
        CodeRun { text: " main".to_string(), style: CodeRunStyle::plain() },
    ];
    let p = code_paragraph(&line, "FFFFFF", false, &styles);
    assert_eq!(p.items.len(), 2);
    assert_eq!(text_of(only_run(&p, 1)), (" main".to_string(), true));
    let props = p.props.unwrap();
    assert_eq!(props.shading, Some("FFFFFF".to_string()));
    assert_eq!(props.spacing.unwrap().after, Some(0));
}

#[test]
fn headings_titles_and_toc_entries() {
    let styles = DocxStyles::default_styles();
    let bm = BookmarkRef { id: "7".to_string(), name: "md_intro".to_string() };
    let p = heading_paragraph_with_bookmark(2, "Intro", Some(bm), &styles);
    assert_eq!(p.props.as_ref().unwrap().style, Some("Heading2".to_string()));
    assert_eq!(p.items.len(), 3);
    match &p.items[0] {
        ParagraphItem::BookmarkStart(name, id) => assert_eq!((name.as_str(), id.as_str()), ("md_intro", "7")),
        _ => panic!("bookmark start"),
    }
    assert_eq!(text_of(only_run(&p, 1)).0, "Intro");
    assert_eq!(props_names(&only_run(&p, 1).props), vec!["Bold".to_string()]);
    assert!(matches!(&p.items[2], ParagraphItem::BookmarkEnd(id) if id == "7"));
    let p = heading_paragraph_with_bookmark(11, "Deep", None, &styles);
    assert_eq!(p.props.unwrap().style, Some("Heading9".to_string()));
    assert_eq!(p.items.len(), 1);

    let t = cover_title_paragraph("Book", &styles);
    let props = t.props.as_ref().unwrap();
    assert_eq!(props.style, Some("Title".to_string()));
    assert_eq!(props.justification, Some(Justify::Center));
    assert_eq!(props.spacing.unwrap().before, Some(3600));
    assert_eq!(
        props_names(&only_run(&t, 0).props),
        vec!["Bold".to_string(), "FontSize(\"68\")".to_string(), "FontSizeComplexScript(\"68\")".to_string()]
    );
    assert_eq!(text_of(only_run(&t, 0)), ("Book".to_string(), false));

    let h = toc_heading_paragraph("Contents", &styles);
    assert_eq!(h.props.unwrap().style, Some("TOCHeading".to_string()));

    let e = toc_entry_properties(3, &styles);
    assert_eq!(e.style, Some("TOC3".to_string()));
    assert_eq!(e.indentation.unwrap().left, Some(840));
    assert_eq!(e.dot_tab, Some(9000));

    let p = paragraph_from_text("x", RunStyle::plain());
    assert!(p.props.is_none());
    assert!(only_run(&p, 0).props.is_none());
}

#[test]
fn hyperlinks_wrap_one_run() {
    let r = text_run("site", RunStyle::plain());
    match hyperlink(&LinkTarget::External("https://x.org".to_string()), r) {
        ParagraphItem::Hyperlink(LinkTarget::External(u), runs) => {
            assert_eq!(u, "https://x.org");
            assert_eq!(runs.len(), 1);
        },
        _ => panic!("hyperlink"),
    }
    let r = text_run("here", RunStyle::plain());
    assert!(matches!(
        hyperlink(&LinkTarget::Anchor("md_a".to_string()), r),
        ParagraphItem::Hyperlink(LinkTarget::Anchor(a), _) if a == "md_a"
    ));
}
