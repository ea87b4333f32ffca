use mdbook_renderkit::docx_style::{
    normalize_style_name, resolve_docx_styles, DocxConfig, DocxStyles, ParagraphKind, TemplateStyle,
};

fn style(id: Option<&str>, name: Option<&str>, is_paragraph: bool, outline: Option<i32>) -> TemplateStyle {
    TemplateStyle {
        style_id: id.map(|s| s.to_string()),
        name: name.map(|s| s.to_string()),
        is_paragraph,
        outline_level: outline,
    }
}

#[test]
fn docx_settings_defaults() {
    let cfg = DocxConfig::default_config();
    assert_eq!(cfg.template, None);
    assert!(!cfg.section_number);
    assert!(cfg.toc);
    assert_eq!(cfg.toc_depth, 3);
    assert!(cfg.code_highlight);
    assert_eq!(cfg.code_theme, "InspiredGitHub");
    let mut c = DocxConfig::default_config();
    c.toc_depth = 0;
    assert_eq!(c.with_default_depth().toc_depth, 3);
    let mut c = DocxConfig::default_config();
    c.toc_depth = 12;
    assert_eq!(c.toc_depth(), 9);
    c.toc_depth = 0;
    assert_eq!(c.toc_depth(), 1);
    c.toc_depth = 5;
    assert_eq!(c.with_default_depth().toc_depth(), 5);
}

#[test]
fn default_style_ids() {
    let s = DocxStyles::default_styles();
    assert_eq!(s.heading(1), "Heading1");
    assert_eq!(s.heading(0), "Heading1");
    assert_eq!(s.heading(12), "Heading9");
    assert_eq!(s.toc_entry(3), "TOC3");
    assert_eq!(s.title, "Title");
    assert_eq!(s.toc_heading, "TOCHeading");
    assert_eq!(s.block_style(ParagraphKind::Code), Some("NoSpacing"));
    assert_eq!(s.block_style(ParagraphKind::List), Some("ListParagraph"));
    assert_eq!(s.block_style(ParagraphKind::Quote), Some("Quote"));
    assert_eq!(s.block_style(ParagraphKind::Normal), None);
    assert_eq!(s.table, "TableGrid");
    assert_eq!(s.hyperlink, "Hyperlink");
}

#[test]
fn style_names_are_normalised() {
    assert_eq!(normalize_style_name("  Heading   1 "), "heading 1");
    assert_eq!(normalize_style_name("TOC\tHeading"), "toc heading");
    assert_eq!(normalize_style_name("ÄBC"), "Äbc");
    assert_eq!(normalize_style_name(""), "");
}

#[test]
fn template_styles_replace_defaults() {
    let styles = vec![
        style(Some("MyH1"), Some("Heading 1"), true, Some(0)),
        style(Some("Out2"), None, true, Some(1)),
        style(Some("Later2"), None, true, Some(1)),
        style(Some("CharOut3"), None, false, Some(2)),
        style(Some("Ttl"), Some("Title"), true, None),
        style(Some("Code1"), Some("No  Spacing"), true, None),
        style(Some("Cn"), Some("无间隔"), true, None),
        style(Some("Grid"), Some("Table Grid"), false, None),
        style(None, Some("Quote"), true, None),
        style(Some("Toc2"), Some("TOC 2"), true, None),
        style(Some("Link1"), Some("Hyperlink"), false, None),
        style(Some("Link2"), Some("hyperlink"), false, None),
    ];
    let s = resolve_docx_styles(&styles);
    assert_eq!(s.headings[0], "MyH1");
    assert_eq!(s.headings[1], "Out2");
    assert_eq!(s.headings[2], "Heading3");
    assert_eq!(s.headings[8], "Heading9");
    assert_eq!(s.toc_entries[0], "TOC1");
    assert_eq!(s.toc_entries[1], "Toc2");
    assert_eq!(s.title, "Ttl");
    assert_eq!(s.toc_heading, "TOCHeading");
    assert_eq!(s.code, "Cn");
    assert_eq!(s.table, "Grid");
    assert_eq!(s.quote, "Quote");
    assert_eq!(s.list, "ListParagraph");
    assert_eq!(s.hyperlink, "Link2");
}

#[test]
fn no_spacing_and_normal_table_are_found() {
    let styles = vec![
        style(Some("NS"), Some("NoSpacing"), true, None),
        style(Some("Grid"), Some("Table Grid"), false, None),
        style(Some("Normal"), Some("Normal Table"), false, None),
    ];
    let s = resolve_docx_styles(&styles);
    assert_eq!(s.code, "NS");
    assert_eq!(s.table, "Normal");
    let s = resolve_docx_styles(&[]);
    assert_eq!(s.code, "NoSpacing");
    assert_eq!(s.headings[4], "Heading5");
}

#[test]
fn normalized_style_names_are_tidy_and_stable() {
    for name in ["  Heading\t 1 ", "TOC\u{a0}Heading", "a  B   c", "\n", "Body Text"] {
        let n = normalize_style_name(name);
        assert_eq!(normalize_style_name(&n), n);
        assert!(!n.chars().any(|c| c.is_ascii_uppercase()));
        assert!(!n.starts_with(char::is_whitespace) && !n.ends_with(char::is_whitespace));
        assert!(!n.contains("  ") && n.chars().all(|c| c == ' ' || !c.is_whitespace()));
    }
    assert_eq!(normalize_style_name("  Heading\t 1 "), "heading 1");
}
