use mdbook_renderkit::docx_model::Justify;
use mdbook_renderkit::template_default::{
    default_body, default_styles, heading_style, toc_style, DefaultBlock, DefaultStyle,
};
use mdbook_renderkit::template_rewrite::{
    new_body, plan_rewrite, replaced_texts, NewBlock, text_needs_preserve, toc_instruction, validate_markers, BlockKind,
    TemplateBlock, AUTHOR_MARKER, CONTENT_BOOKMARK_MARKER, TITLE_MARKER,
};
use mdbook_renderkit::template_styles::{
    find_style, heading_font_size, keep_style, renderkit_sources, renderkit_style_specs, strings,
    style_formatting, toc_source_id, FontSet, SourceStyle, StyleFormatting, StyleKind,
};

fn src(id: &str, name: &str, kind: StyleKind) -> SourceStyle {
    SourceStyle { id: Some(id.to_string()), name: Some(name.to_string()), kind: Some(kind) }
}

fn para(text: &str) -> TemplateBlock {
    TemplateBlock { kind: BlockKind::Paragraph, section_break: false, has_drawing: false, text: text.to_string() }
}

#[test]
fn style_specs_in_order() {
    let specs = renderkit_style_specs();
    assert_eq!(specs.len(), 28);
    assert_eq!(specs[0].id, "RenderkitTitle");
    assert_eq!(specs[0].source_ids, vec!["20", "Title"]);
    assert_eq!(specs[3].source_names, vec!["无间隔1", "无间隔", "No Spacing"]);
    assert_eq!(specs[4].kind, StyleKind::Character);
    assert_eq!(specs[6].based_on, Some("RenderkitBody".to_string()));
    assert_eq!(specs[8].kind, StyleKind::Table);
    assert_eq!(specs[10].id, "RenderkitHeading1");
    assert_eq!(specs[10].source_ids, vec!["2", "Heading1"]);
    assert_eq!(specs[10].source_names, vec!["heading 1"]);
    assert_eq!(specs[11].id, "RenderkitToc1");
    assert_eq!(specs[11].source_ids, vec!["16", "TOC1"]);
    assert_eq!(specs[27].id, "RenderkitToc9");
    assert_eq!(specs[27].source_ids, vec!["13", "TOC9"]);
    assert_eq!(specs[27].source_names, vec!["toc 3"]);
    assert_eq!(toc_source_id(1), "16");
    assert_eq!(toc_source_id(2), "18");
    assert_eq!(toc_source_id(7), "13");
    assert_eq!(strings(&["a", "b"]), vec!["a".to_string(), "b".to_string()]);
}

#[test]
fn source_styles_are_found_by_id_then_name() {
    let styles = vec![
        src("Normal", "Normal", StyleKind::Paragraph),
        src("20", "Title", StyleKind::Paragraph),
        src("24", "Hyperlink", StyleKind::Character),
        src("RenderkitBody", "old body", StyleKind::Paragraph),
        src("22", "Table Grid", StyleKind::Table),
        src("x", "Body  Text", StyleKind::Paragraph),
    ];
    let ids = strings(&["none", "24"]);
    assert_eq!(find_style(&styles, &ids, &strings(&[]), StyleKind::Character), Some(2));
    assert_eq!(find_style(&styles, &ids, &strings(&[]), StyleKind::Paragraph), None);
    assert_eq!(find_style(&styles, &strings(&[]), &strings(&["body text"]), StyleKind::Paragraph), Some(5));
    let specs = renderkit_style_specs();
    let plan = renderkit_sources(&styles, &specs).expect("sources");
    assert_eq!(plan[..10].to_vec(), vec![1, 0, 0, 0, 2, 0, 0, 5, 4, 2]);
    assert!(plan[10..].iter().all(|&j| j == 0));
    assert_eq!(
        renderkit_sources(&vec![src("h", "Hyperlink", StyleKind::Character)], &specs),
        Err("cannot create style RenderkitTitle: no source style".to_string())
    );
    assert!(!keep_style(Some("RenderkitBody"), &specs));
    assert!(keep_style(Some("Normal"), &specs));
    assert!(keep_style(None, &specs));
}

#[test]
fn renderkit_style_formatting() {
    assert_eq!(heading_font_size(1), "28");
    assert_eq!(heading_font_size(2), "24");
    assert_eq!(heading_font_size(5), "21");
    match style_formatting("RenderkitHeading2") {
        StyleFormatting::Heading { justification, before, after, line, run } => {
            assert_eq!(justification, Justify::Both);
            assert_eq!((before, after, line), (0, 0, 240));
            assert_eq!(run.size, "24");
            assert!(run.bold && matches!(run.fonts, FontSet::Body));
            assert!(run.color.is_none() && run.shading.is_none() && !run.underline);
        },
        _ => panic!("heading"),
    }
    for (id, size) in [("RenderkitHeading01", "28"), ("RenderkitHeading+1", "28"), ("RenderkitHeadingX", "21"), ("RenderkitHeading", "21")] {
        match style_formatting(id) {
            StyleFormatting::Heading { run, .. } => assert_eq!(run.size, size, "{id}"),
            _ => panic!("heading {id}"),
        }
    }
    assert!(matches!(style_formatting("RenderkitTable"), StyleFormatting::Table));
    assert!(matches!(style_formatting("Normal"), StyleFormatting::Unchanged));
    match style_formatting("RenderkitToc4") {
        StyleFormatting::Replace { paragraph: None, run: Some(r) } => {
            assert_eq!((r.fonts, r.size.as_str(), r.bold), (FontSet::Body, "21", false));
        },
        _ => panic!("toc"),
    }
    match style_formatting("RenderkitCode") {
        StyleFormatting::Replace { paragraph: Some(p), run: Some(r) } => {
            assert_eq!((p.before, p.after, p.line), (0, 0, 324));
            assert_eq!(p.justification, Some(Justify::Both));
            assert_eq!(p.shading, Some("F6F8FA".to_string()));
            assert_eq!(r.fonts, FontSet::Code);
        },
        _ => panic!("code"),
    }
    match style_formatting("RenderkitBody") {
        StyleFormatting::Replace { paragraph: Some(p), run: Some(r) } => {
            assert_eq!(p.first_line, Some(420));
            assert_eq!(p.justification, Some(Justify::Both));
            assert_eq!(r.size, "21");
        },
        _ => panic!("body"),
    }
    match style_formatting("RenderkitHyperlink") {
        StyleFormatting::Replace { paragraph: None, run: Some(r) } => {
            assert_eq!(r.color, Some("0563C1".to_string()));
            assert!(r.underline);
        },
        _ => panic!("hyperlink"),
    }
}

#[test]
fn template_rewrite_plan() {
    let mut blocks = vec![
        para("Title Text"),
        para("Subtitle"),
        para("  "),
        para("Extra"),
        para("Author Name"),
        para("Date"),
        TemplateBlock { kind: BlockKind::Sdt, section_break: false, has_drawing: false, text: String::new() },
        TemplateBlock { kind: BlockKind::Paragraph, section_break: true, has_drawing: false, text: String::new() },
        TemplateBlock { kind: BlockKind::Paragraph, section_break: false, has_drawing: true, text: String::new() },
        para("end"),
    ];
    let plan = plan_rewrite(&blocks).expect("plan");
    assert_eq!(
        (plan.toc_start, plan.section_break, plan.back_cover, plan.title, plan.subtitle, plan.author),
        (6, 7, 8, 0, 1, 4)
    );
    assert_eq!(plan.blank, vec![1, 3, 5]);
    assert_eq!(
        new_body(&plan),
        vec![
            NewBlock::Cover(0),
            NewBlock::Cover(2),
            NewBlock::Cover(3),
            NewBlock::Cover(4),
            NewBlock::Cover(5),
            NewBlock::SectionBreak(7),
            NewBlock::TocHeading,
            NewBlock::TocField,
            NewBlock::PageBreak,
            NewBlock::ContentMarker,
            NewBlock::PageBreak,
            NewBlock::BackCover(8),
        ]
    );

    blocks[8].has_drawing = false;
    assert_eq!(
        plan_rewrite(&blocks).map(|_| ()),
        Err("legacy template has no drawing paragraph for the back cover".to_string())
    );
    blocks[8].has_drawing = true;
    blocks[7].section_break = false;
    assert_eq!(
        plan_rewrite(&blocks).map(|_| ()),
        Err("legacy template has no paragraph section break".to_string())
    );
    blocks[7].section_break = true;
    blocks[6].kind = BlockKind::Other;
    assert_eq!(plan_rewrite(&blocks).map(|_| ()), Err("legacy template has no TOC block".to_string()));
    let few = vec![
        para("Only"),
        para("Two"),
        TemplateBlock { kind: BlockKind::Sdt, section_break: false, has_drawing: false, text: String::new() },
        TemplateBlock { kind: BlockKind::Paragraph, section_break: true, has_drawing: true, text: String::new() },
    ];
    assert_eq!(
        plan_rewrite(&few).map(|_| ()),
        Err("cover has fewer than three text paragraphs".to_string())
    );
}

#[test]
fn template_table_of_contents_field() {
    let expected = format!(
        " TOC \\t \"{}\" \\h \\z \\u ",
        (1..=9).map(|l| format!("RenderkitHeading{l},{l}")).collect::<Vec<_>>().join(",")
    );
    assert_eq!(toc_instruction(), expected);
}

#[test]
fn markers_are_checked() {
    let names = strings(&[TITLE_MARKER, AUTHOR_MARKER, CONTENT_BOOKMARK_MARKER]);
    assert_eq!(validate_markers(&names, &strings(&["text"])), Ok(()));
    assert_eq!(
        validate_markers(&names, &strings(&["a", "see MDBOOK_RENDERKIT_TITLE"])),
        Err("marker is not an exact text run: see MDBOOK_RENDERKIT_TITLE".to_string())
    );
    assert_eq!(
        validate_markers(&strings(&[TITLE_MARKER, AUTHOR_MARKER]), &strings(&[])),
        Err("missing marker mdbook_renderkit_content".to_string())
    );
    assert_eq!(
        validate_markers(&strings(&[CONTENT_BOOKMARK_MARKER, TITLE_MARKER, TITLE_MARKER, AUTHOR_MARKER]), &strings(&[])),
        Err("repeated marker mdbook_renderkit_title".to_string())
    );
    assert_eq!(
        validate_markers(&strings(&[CONTENT_BOOKMARK_MARKER, TITLE_MARKER]), &strings(&[])),
        Err("missing marker mdbook_renderkit_author".to_string())
    );
}

#[test]
fn cover_text_replacement() {
    assert!(text_needs_preserve(" a"));
    assert!(text_needs_preserve("a\t"));
    assert!(!text_needs_preserve("a  b"));
    assert!(!text_needs_preserve(""));
    assert_eq!(replaced_texts(3, "x"), Ok(vec![Some("x".to_string()), None, None]));
    assert_eq!(
        replaced_texts(0, "x"),
        Err("cannot replace text in paragraph without w:t nodes".to_string())
    );
}

#[test]
fn default_template_styles() {
    let h = heading_style(1);
    assert_eq!((h.id.as_str(), h.size.as_str(), h.bold), ("RenderkitHeading1", "32", true));
    assert_eq!((h.spacing_before, h.spacing_after, h.outline_level), (Some(360), Some(120), Some(0)));
    assert!(h.keep_next);
    let h = heading_style(6);
    assert_eq!((h.size.as_str(), h.spacing_before, h.outline_level), ("22", Some(240), Some(5)));
    assert_eq!(h.based_on, Some("RenderkitBody".to_string()));
    let t = toc_style(2);
    assert_eq!((t.id.as_str(), t.left, t.spacing_after, t.first_line), ("RenderkitToc2", Some(240), Some(80), Some(0)));
    assert_eq!(toc_style(7).left, Some(480));
    assert_eq!(toc_style(1).left, Some(0));
    let all = default_styles();
    match &all[0] {
        DefaultStyle::Paragraph(p) => {
            assert_eq!(p.id, "RenderkitTitle");
            assert_eq!(p.based_on, None);
            assert_eq!(p.next, Some("RenderkitAuthor".to_string()));
            assert_eq!((p.size.as_str(), p.bold, p.justification), ("36", true, Some(Justify::Center)));
        },
        _ => panic!("title"),
    }
    let heading_ids: Vec<String> = all
        .iter()
        .filter_map(|s| match s {
            DefaultStyle::Paragraph(p) if p.id.starts_with("RenderkitHeading") => Some(p.id.clone()),
            _ => None,
        })
        .collect();
    assert_eq!(heading_ids.len(), 9);
    assert_eq!(all.iter().filter(|s| matches!(s, DefaultStyle::Table)).count(), 1);
}

#[test]
fn default_template_body() {
    let body = default_body();
    assert_eq!(body.len(), 7);
    let texts: Vec<(String, String)> = body
        .iter()
        .filter_map(|b| match b {
            DefaultBlock::Text { text, style } => Some((text.clone(), style.clone())),
            _ => None,
        })
        .collect();
    assert_eq!(
        texts,
        vec![
            ("MDBOOK_RENDERKIT_TITLE".to_string(), "RenderkitTitle".to_string()),
            ("MDBOOK_RENDERKIT_AUTHOR".to_string(), "RenderkitAuthor".to_string()),
            ("Contents".to_string(), "RenderkitTocHeading".to_string()),
            ("MDBOOK_RENDERKIT_CONTENT".to_string(), "RenderkitBody".to_string()),
        ]
    );
    assert!(matches!(body[2], DefaultBlock::PageBreak));
    match &body[4] {
        DefaultBlock::TocField { style, instruction, placeholder } => {
            assert_eq!(style, "RenderkitToc1");
            assert_eq!(instruction, r#" TOC \o "1-3" \h \z \u "#);
            assert_eq!(placeholder, "Right-click to update field.");
        },
        _ => panic!("toc field"),
    }
    assert!(matches!(body[5], DefaultBlock::PageBreak));
}
