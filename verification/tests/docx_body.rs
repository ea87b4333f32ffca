use mdbook_renderkit::book::ChapterInfo;
use mdbook_renderkit::docx_body::{
    chapter_body, chapter_env, chapter_image_requests, chapter_level, render_chapter_events, ListState, BULLET_NUM_ID,
    TASK_DONE_NUM_ID, TASK_TODO_NUM_ID,
};
use mdbook_renderkit::docx_code::CodeHighlighter;
use mdbook_renderkit::docx_document::{chapter_toc_title, document, toc_block, toc_entry_paragraph};
use mdbook_renderkit::docx_model::{
    Block, FieldCharKind, ImageRef, LinkTarget, Paragraph, ParagraphItem, Run, RunItem,
};
use mdbook_renderkit::docx_parts::{CodeRun, CodeRunStyle};
use mdbook_renderkit::docx_registry::DocxRegistry;
use mdbook_renderkit::markdown::{MdEvent, MdTag, MdTagEnd};
use mdbook_renderkit::docx_style::{DocxConfig, DocxStyles};

fn chapter(name: &str, content: &str, number: Option<Vec<u32>>, source: Option<&str>) -> ChapterInfo {
    ChapterInfo {
        name: name.to_string(),
        content: content.to_string(),
        number,
        source_path: source.map(|s| s.to_string()),
        path: source.map(|s| s.to_string()),
    }
}

fn plain_highlighter() -> CodeHighlighter {
    let mut cfg = DocxConfig::default_config();
    cfg.code_highlight = false;
    CodeHighlighter::new(&cfg)
}

fn para(b: &Block) -> &Paragraph {
    match b {
        Block::Paragraph(p) => p,
        Block::Table(_) => panic!("table"),
    }
}

fn text(r: &Run) -> String {
    match &r.item {
        RunItem::Text(t, _) => t.clone(),
        other => format!("{:?}", other),
    }
}

/// The text of a paragraph's items, hyperlinks in `<..>`, bookmarks as `|`.
fn items_text(p: &Paragraph) -> String {
    let mut out = String::new();
    for item in &p.items {
        match item {
            ParagraphItem::Run(r) => out.push_str(&text(r)),
            ParagraphItem::Hyperlink(_, runs) => {
                out.push('<');
                for r in runs {
                    out.push_str(&text(r));
                }
                out.push('>');
            },
            ParagraphItem::BookmarkStart(_, _) | ParagraphItem::BookmarkEnd(_) => out.push('|'),
        }
    }
    out
}

fn style(p: &Paragraph) -> Option<String> {
    p.props.as_ref().and_then(|q| q.style.clone())
}

const CONTENT: &str = "# Intro\n\nHello *big* **world** [site](https://x.org) and [ch](other.md).\n\n- a\n- b\n\n1. one\n\n> quote\n\n---\n\n![pic](img/p.png)\n\n```rust\nfn x() {}\n```\n";

#[test]
fn list_states_and_markers() {
    let mut reg = DocxRegistry::new();
    assert_eq!(ListState::new(None, 0, &mut reg).numbering_id(), BULLET_NUM_ID);
    assert_eq!(ListState::new(Some(3), 1, &mut reg).numbering_id(), 10);
    assert_eq!((BULLET_NUM_ID, TASK_DONE_NUM_ID, TASK_TODO_NUM_ID), (1, 3, 4));
    assert_eq!(chapter_level(&chapter("c", "", Some(vec![1, 2, 3]), None)), 3);
    assert_eq!(chapter_level(&chapter("c", "", Some(vec![]), None)), 1);
    assert_eq!(chapter_level(&chapter("c", "", None, None)), 1);
}

#[test]
fn chapter_bodies_follow_the_markdown() {
    let styles = DocxStyles::default_styles();
    let h = plain_highlighter();
    let mut reg = DocxRegistry::new();
    let c = chapter("Intro", CONTENT, None, Some("guide/intro.md"));
    let blocks = chapter_body(false, &styles, &h, &mut reg, &c, &vec![]).expect("body");
    assert_eq!(blocks.len(), 9);

    let heading = para(&blocks[0]);
    assert_eq!(style(heading), Some("Heading1".to_string()));
    assert_eq!(items_text(heading), "|Intro|");
    match &heading.items[0] {
        ParagraphItem::BookmarkStart(name, id) => assert_eq!((name.as_str(), id.as_str()), ("md_guideintromd", "1")),
        _ => panic!("bookmark"),
    }

    let p = para(&blocks[1]);
    assert_eq!(style(p), None);
    assert_eq!(items_text(p), "Hello big world <site> and <ch>.");
    let mut links = p.items.iter().filter_map(|i| match i {
        ParagraphItem::Hyperlink(t, _) => Some(t.clone()),
        _ => None,
    });
    assert!(matches!(links.next(), Some(LinkTarget::External(u)) if u == "https://x.org"));
    assert!(matches!(links.next(), Some(LinkTarget::Anchor(a)) if a == "md_guideothermd"));
    match &p.items[1] {
        ParagraphItem::Run(r) => {
            assert_eq!(text(r), "big");
            assert_eq!(format!("{:?}", r.props), "Some([Italic])");
        },
        _ => panic!("run"),
    }

    for (i, t) in [(2usize, "a"), (3, "b")] {
        let item = para(&blocks[i]);
        assert_eq!(items_text(item), t);
        let props = item.props.as_ref().unwrap();
        assert_eq!(props.style, Some("ListParagraph".to_string()));
        assert_eq!(props.numbering, Some((0, 1)));
        assert_eq!(props.indentation.unwrap().left, Some(420));
    }
    assert_eq!(para(&blocks[4]).props.as_ref().unwrap().numbering, Some((0, 10)));

    let q = para(&blocks[5]);
    assert_eq!(style(q), Some("Quote".to_string()));
    assert_eq!(q.props.as_ref().unwrap().indentation.unwrap().left, Some(420));

    assert_eq!(items_text(para(&blocks[6])), "-".repeat(40));
    assert!(para(&blocks[6]).props.is_none());

    assert_eq!(items_text(para(&blocks[7])), "[image: img/p.png]");

    let code = para(&blocks[8]);
    assert_eq!(style(code), Some("NoSpacing".to_string()));
    assert_eq!(items_text(code), "fn x() {}");
    assert_eq!(code.props.as_ref().unwrap().shading, Some("F0F0F0".to_string()));
}

#[test]
fn found_images_become_drawings() {
    let styles = DocxStyles::default_styles();
    let h = plain_highlighter();
    let mut reg = DocxRegistry::new();
    let c = chapter("Pics", "![one](a.png) ![two](b.png)\n", None, Some("pics.md"));
    assert_eq!(
        chapter_image_requests(&styles, &c),
        Some(vec![("a.png".to_string(), "one".to_string()), ("b.png".to_string(), "two".to_string())])
    );
    let img = ImageRef { relationship_id: "rId5".to_string(), width: 640, height: 480, alt: "one".to_string() };
    let blocks = chapter_body(false, &styles, &h, &mut reg, &c, &vec![Some(img), None]).expect("body");
    assert_eq!(blocks.len(), 1);
    let p = para(&blocks[0]);
    match &p.items[0] {
        ParagraphItem::Run(r) => match &r.item {
            RunItem::Drawing(id, i) => {
                assert_eq!(*id, 1);
                assert_eq!(i.relationship_id, "rId5");
            },
            _ => panic!("drawing"),
        },
        _ => panic!("run"),
    }
    assert_eq!(p.items.len(), 5);
    let rest: String = p.items[1..]
        .iter()
        .map(|i| match i {
            ParagraphItem::Run(r) => text(r),
            _ => panic!("run"),
        })
        .collect();
    assert_eq!(rest, " [image: b.png]");
}

#[test]
fn section_numbers_shift_headings_and_tables_collect_cells() {
    let styles = DocxStyles::default_styles();
    let h = plain_highlighter();
    let mut reg = DocxRegistry::new();
    let c = chapter("Sub", "## Part\n\n| A | B |\n|---|--:|\n| 1 | 2 |\n\n- [x] done\n- [ ] todo\n", Some(vec![2, 1]), None);
    let blocks = chapter_body(true, &styles, &h, &mut reg, &c, &vec![]).expect("body");
    assert_eq!(blocks.len(), 4);
    assert_eq!(style(para(&blocks[0])), Some("Heading3".to_string()));
    assert_eq!(items_text(para(&blocks[0])), "Part");
    match &blocks[1] {
        Block::Table(t) => {
            assert_eq!(t.column_count, 2);
            assert_eq!(t.rows.len(), 2);
            assert!(t.rows[0].is_head);
            assert_eq!(items_text(&t.rows[1].cells[1].paragraphs[0]), "2");
        },
        _ => panic!("table"),
    }
    assert_eq!(para(&blocks[2]).props.as_ref().unwrap().numbering, Some((0, 3)));
    assert_eq!(para(&blocks[3]).props.as_ref().unwrap().numbering, Some((0, 4)));
}

#[test]
fn table_of_contents_and_document() {
    let styles = DocxStyles::default_styles();
    let h = plain_highlighter();
    let chapters = vec![
        chapter("One", "Text one.\n", Some(vec![1]), Some("one.md")),
        chapter("Deep", "", Some(vec![1, 1, 1, 1]), Some("deep.md")),
        chapter("Empty", "", Some(vec![2]), Some("two.md")),
    ];
    assert_eq!(chapter_toc_title(true, &chapters[0]), "1. One");
    assert_eq!(chapter_toc_title(false, &chapters[0]), "One");
    let mut reg = DocxRegistry::new();
    let entry = toc_entry_paragraph(false, &styles, &mut reg, &chapters[1]).expect("entry");
    assert_eq!(entry.props.as_ref().unwrap().style, Some("TOC4".to_string()));
    assert!(toc_entry_paragraph(false, &styles, &mut reg, &chapter("x", "", None, None)).is_none());

    let cfg = DocxConfig::default_config();
    let mut reg = DocxRegistry::new();
    let toc = toc_block(&cfg, &styles, &mut reg, &chapters);
    assert_eq!(toc.len(), 6);
    assert_eq!(items_text(para(&toc[0])), "Contents");
    match &para(&toc[1]).items[1] {
        ParagraphItem::Run(r) => match &r.item {
            RunItem::FieldCode(code) => assert_eq!(code, " TOC \\o \"1-3\" \\h \\z \\u "),
            _ => panic!("field code"),
        },
        _ => panic!("run"),
    }
    assert_eq!(items_text(para(&toc[2])), "<OneTab>");
    assert_eq!(items_text(para(&toc[3])), "<EmptyTab>");
    assert!(matches!(&para(&toc[4]).items[0], ParagraphItem::Run(r) if matches!(r.item, RunItem::FieldChar(FieldCharKind::End, false))));

    let mut reg = DocxRegistry::new();
    let blocks = document(&cfg, Some("Book"), &chapters, &styles, &h, &mut reg, &vec![]).expect("document");
    // title, page break, six blocks of contents, chapter one, break, the
    // fallback heading of the second chapter, break, that of the third
    assert_eq!(blocks.len(), 13);
    assert_eq!(style(para(&blocks[0])), Some("Title".to_string()));
    assert_eq!(items_text(para(&blocks[8])), "Text one.");
    assert_eq!(style(para(&blocks[10])), Some("Heading4".to_string()));
    assert_eq!(items_text(para(&blocks[10])), "|Deep|");
    assert_eq!(items_text(para(&blocks[12])), "|Empty|");

    let mut no_breaks = DocxConfig::default_config();
    no_breaks.chapter_no_pagebreak = true;
    let mut reg = DocxRegistry::new();
    let blocks = document(&no_breaks, Some("Book"), &chapters, &styles, &h, &mut reg, &vec![]).expect("document");
    assert_eq!(blocks.len(), 11);
    assert_eq!(items_text(para(&blocks[9])), "|Deep|");

    let mut plain = DocxConfig::default_config();
    plain.toc = false;
    let mut reg = DocxRegistry::new();
    let one = vec![chapter("One", "Text one.\n", Some(vec![1]), Some("one.md"))];
    let blocks = document(&plain, None, &one, &styles, &h, &mut reg, &vec![]).expect("document");
    assert_eq!(blocks.len(), 1);
}

#[test]
fn chapter_events_with_given_highlighting() {
    let styles = DocxStyles::default_styles();
    let c = chapter("Code", "", None, Some("code.md"));
    let env = chapter_env(false, &c, &styles, "282C34");
    let events = vec![
        MdEvent::Start(MdTag::Heading(2)),
        MdEvent::Text("Code".to_string()),
        MdEvent::End(MdTagEnd::Heading(2)),
        MdEvent::Start(MdTag::CodeBlock(Some("rust".to_string()))),
        MdEvent::Text("let x = 1;\n".to_string()),
        MdEvent::End(MdTagEnd::CodeBlock),
        MdEvent::Start(MdTag::CodeBlock(None)),
        MdEvent::Text("plain\n".to_string()),
        MdEvent::End(MdTagEnd::CodeBlock),
    ];
    let keyword = CodeRunStyle { color: Some("C678DD".to_string()), bold: true, italic: false, underline: false };
    let code = vec![vec![vec![
        CodeRun { text: "let".to_string(), style: keyword },
        CodeRun { text: " x = 1;".to_string(), style: CodeRunStyle::plain() },
    ]]];
    let mut reg = DocxRegistry::new();
    let blocks = render_chapter_events(&env, &mut reg, &events, &code, &vec![]);
    assert_eq!(blocks.len(), 3);
    assert_eq!(style(para(&blocks[0])), Some("Heading2".to_string()));
    assert_eq!(items_text(para(&blocks[0])), "|Code|");
    let highlighted = para(&blocks[1]);
    assert_eq!(items_text(highlighted), "let x = 1;");
    assert_eq!(highlighted.props.as_ref().unwrap().shading, Some("282C34".to_string()));
    match &highlighted.items[0] {
        ParagraphItem::Run(r) => assert_eq!(format!("{:?}", r.props), "Some([Bold, Color(\"C678DD\"), CodeFonts])"),
        _ => panic!("run"),
    }
    // the second block has no highlighting given, so it stays plain
    let plain = para(&blocks[2]);
    assert_eq!(items_text(plain), "plain");
    match &plain.items[0] {
        ParagraphItem::Run(r) => assert_eq!(format!("{:?}", r.props), "Some([CodeFonts])"),
        _ => panic!("run"),
    }
}

#[test]
fn html_footnotes_and_breaks_in_docx() {
    let styles = DocxStyles::default_styles();
    let h = plain_highlighter();
    let mut reg = DocxRegistry::new();
    let c = chapter("N", "Go <b>bold</b> on[^n]\nnow ~~x~~ `c`\n\n[^n]: the note\n", None, None);
    let blocks = chapter_body(false, &styles, &h, &mut reg, &c, &vec![]).expect("body");
    assert_eq!(blocks.len(), 2);
    let p = para(&blocks[0]);
    assert_eq!(items_text(p), "Go <b>bold</b> on[n]Breaknow x c");
    let strike = p.items.iter().find_map(|i| match i {
        ParagraphItem::Run(r) if text(r) == "x" => Some(format!("{:?}", r.props)),
        _ => None,
    });
    assert_eq!(strike, Some("Some([Strike])".to_string()));
    let code = p.items.iter().find_map(|i| match i {
        ParagraphItem::Run(r) if text(r) == "c" => Some(format!("{:?}", r.props)),
        _ => None,
    });
    assert_eq!(code, Some("Some([CodeFonts, Shading(\"F6F8FA\")])".to_string()));
    assert_eq!(items_text(para(&blocks[1])), "the note");
}
