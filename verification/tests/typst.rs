use mdbook_renderkit::book::ChapterInfo;
use mdbook_renderkit::markdown::MdAlign;
use mdbook_renderkit::paths::{escape_typst_label, label_for_output_path};
use mdbook_renderkit::typst::{
    admonish_colors, apply_template, capitalize, chapter_context, escape_typst, escape_typst_string,
    html_attr, local_md_link_label, markdown_heading_level, normalize_relative_link,
    parse_admonish_info, render_html, render_image, render_invisible_chapter_heading,
    render_link_start, render_raw, render_table_start, ImageCopy, PdfConfig, TypstChapter,
};
use mdbook_renderkit::typst_render::{
    code_lang_of, markdown_to_typst, markdown_to_typst_fragment, render_admonish, render_typst,
};

fn chapter(name: &str, content: &str, number: Option<Vec<u32>>, source: Option<&str>) -> ChapterInfo {
    ChapterInfo {
        name: name.to_string(),
        content: content.to_string(),
        number,
        source_path: source.map(|s| s.to_string()),
        path: source.map(|s| s.to_string()),
    }
}

#[test]
fn escape_typst_escapes_markup_characters() {
    assert_eq!(escape_typst("a_b*c"), "a\\_b\\*c");
    assert_eq!(
        escape_typst("\\#$%&~_^*@<>[]"),
        "\\\\\\#\\$\\%\\&\\~\\_\\^\\*\\@\\<\\>\\[\\]"
    );
    assert_eq!(escape_typst("plain text, 1 + 2"), "plain text, 1 + 2");
}

#[test]
fn escape_typst_string_escapes_quotes_and_controls() {
    assert_eq!(escape_typst_string("say \"hi\"\n\t\r\\"), "say \\\"hi\\\"\\n\\t\\r\\\\");
    assert_eq!(escape_typst_string("#x"), "#x");
}

#[test]
fn typst_labels_keep_safe_characters() {
    assert_eq!(escape_typst_label("guide/intro.html"), "guide-intro.html");
    assert_eq!(escape_typst_label("a b_c-d.e"), "a-b_c-d.e");
    assert_eq!(escape_typst_label(""), "chapter");
    assert_eq!(escape_typst_label("é"), "-");
    assert_eq!(label_for_output_path("x/y.html"), "x-y.html");
}

#[test]
fn admonish_colors_by_kind() {
    assert_eq!(admonish_colors("note"), ("#e8f4fd", "#448aff"));
    assert_eq!(admonish_colors("info"), ("#e0f7fa", "#00b8d4"));
    assert_eq!(admonish_colors("abstract"), ("#e0f7fa", "#00b8d4"));
    assert_eq!(admonish_colors("tip"), ("#e0f2f1", "#00bfa5"));
    assert_eq!(admonish_colors("question"), ("#e6f6e6", "#00c853"));
    assert_eq!(admonish_colors("warning"), ("#fff8e1", "#ff9100"));
    assert_eq!(admonish_colors("reference"), ("#fdf6e3", "#e8a317"));
    assert_eq!(admonish_colors("failure"), ("#fde8e8", "#ff1744"));
    assert_eq!(admonish_colors("bug"), ("#fce4ec", "#f50057"));
    assert_eq!(admonish_colors("example"), ("#f3e5f5", "#7c4dff"));
    assert_eq!(admonish_colors("quote"), ("#f5f5f5", "#9e9e9e"));
    assert_eq!(admonish_colors("unknown"), ("#f5f5f5", "#9e9e9e"));
}

#[test]
fn admonish_info_is_parsed() {
    assert_eq!(
        parse_admonish_info("admonish warning title=\"Careful now\""),
        ("warning".to_string(), "Careful now".to_string())
    );
    assert_eq!(parse_admonish_info("admonish"), ("note".to_string(), String::new()));
    assert_eq!(parse_admonish_info("admonish tip"), ("tip".to_string(), String::new()));
    assert_eq!(
        parse_admonish_info("admonish tip title=\"open"),
        ("tip".to_string(), String::new())
    );
}

#[test]
fn capitalize_first_letter() {
    assert_eq!(capitalize("warning"), "Warning");
    assert_eq!(capitalize(""), "");
    assert_eq!(capitalize("ßx"), "SSx");
}

#[test]
fn html_attribute_values() {
    assert_eq!(html_attr("<img src=\"a.png\" alt=\"x\">", "src"), Some("a.png".to_string()));
    assert_eq!(html_attr("<img src='b.png'>", "src"), Some("b.png".to_string()));
    assert_eq!(html_attr("<img src = c.png>", "src"), Some("c.png".to_string()));
    assert_eq!(html_attr("<img alt=\"x\">", "src"), None);
    assert_eq!(html_attr("<img src>", "src"), None);
    assert_eq!(html_attr("<img src=\"open>", "src"), None);
}

#[test]
fn relative_links_become_html_paths() {
    assert_eq!(normalize_relative_link(Some("guide"), "../other.md"), "other.html");
    assert_eq!(normalize_relative_link(Some("guide"), "page.md#sec"), "guide/page.html#sec");
    assert_eq!(normalize_relative_link(None, "#top"), "#top");
    assert_eq!(normalize_relative_link(Some("a"), "./img.png"), "a/img.png");
}

#[test]
fn local_markdown_links_get_labels() {
    assert_eq!(local_md_link_label(Some("guide"), "other.md#x"), Some("guide-other.html".to_string()));
    assert_eq!(local_md_link_label(None, "https://x.org/a.md"), None);
    assert_eq!(local_md_link_label(None, "me@example.org"), None);
    assert_eq!(local_md_link_label(None, "image.png"), None);
    assert_eq!(local_md_link_label(None, "#frag"), None);
}

#[test]
fn link_starts() {
    let ctx = TypstChapter { chapter_rel_dir: Some("guide".to_string()), label: "l".to_string(), is_fragment: false };
    let mut out = String::new();
    render_link_start(&mut out, &ctx, "https://example.org/?q=\"x\"");
    assert_eq!(out, "#link(\"https://example.org/?q=\\\"x\\\"\")[");
    let mut out = String::new();
    render_link_start(&mut out, &ctx, "me@example.org");
    assert_eq!(out, "#link(\"mailto:me@example.org\")[");
    let mut out = String::new();
    render_link_start(&mut out, &ctx, "intro.md");
    assert_eq!(out, "#link(<guide-intro.html>)[");
    let mut out = String::new();
    render_link_start(&mut out, &ctx, "file.txt");
    assert_eq!(out, "#link(\"guide/file.txt\")[");
}

#[test]
fn raw_and_table_markup() {
    let mut out = String::new();
    render_raw(&mut out, "a\"b", false, None);
    assert_eq!(out, "#raw(\"a\\\"b\")");
    let mut out = String::new();
    render_raw(&mut out, "x\n", true, Some("rust"));
    assert_eq!(out, "#raw(\"x\\n\", block: true, lang: \"rust\")");
    let mut out = String::new();
    render_table_start(&mut out, &[MdAlign::Unset, MdAlign::Left, MdAlign::Center, MdAlign::Right]);
    assert_eq!(
        out,
        "#table(\n  columns: 4,\n  inset: 6pt,\n  align: (auto, left + horizon, center + horizon, right + horizon),\n"
    );
}

#[test]
fn heading_levels_follow_section_numbers() {
    let mut cfg = PdfConfig::default_config();
    let c = chapter("C", "", Some(vec![2, 1]), Some("c.md"));
    assert_eq!(markdown_heading_level(&cfg, &c, 3), 3);
    cfg.section_number = true;
    assert_eq!(markdown_heading_level(&cfg, &c, 1), 2);
    assert_eq!(markdown_heading_level(&cfg, &c, 3), 4);
    let c = chapter("C", "", None, Some("c.md"));
    assert_eq!(markdown_heading_level(&cfg, &c, 3), 3);
}

#[test]
fn chapter_context_and_invisible_heading() {
    let c = chapter("Intro & more", "", None, Some("guide/intro.md"));
    let ctx = chapter_context(&c);
    assert_eq!(ctx.chapter_rel_dir, Some("guide".to_string()));
    assert_eq!(ctx.label, "guide-intro.html");
    assert!(!ctx.is_fragment);
    let mut out = String::new();
    render_invisible_chapter_heading(&mut out, &PdfConfig::default_config(), &c, &ctx, 3);
    assert_eq!(
        out,
        "\n#{\n  show heading: none\n  heading(numbering: none, level: 1, outlined: true, bookmarked: true)[Intro \\& more]\n} <guide-intro.html>\n"
    );

    let c = chapter("Setup", "", Some(vec![2, 3]), None);
    let ctx = chapter_context(&c);
    assert_eq!(ctx.chapter_rel_dir, None);
    assert_eq!(ctx.label, "chapter");
    let mut cfg = PdfConfig::default_config();
    cfg.section_number = true;
    let mut out = String::new();
    render_invisible_chapter_heading(&mut out, &cfg, &c, &ctx, 5);
    assert_eq!(
        out,
        "\n#{\n  show heading: none\n  heading(numbering: none, level: 2, outlined: true, bookmarked: true)[#\"2.3. Setup\"]\n} <chapter>\n"
    );
    cfg.section_number = false;
    let mut out = String::new();
    render_invisible_chapter_heading(&mut out, &cfg, &c, &ctx, 5);
    assert_eq!(
        out,
        "\n#{\n  show heading: none\n  heading(numbering: none, level: 5, outlined: true, bookmarked: true)[Setup]\n} <chapter>\n"
    );
}

#[test]
fn images_and_html() {
    let ctx = TypstChapter { chapter_rel_dir: Some("guide".to_string()), label: "l".to_string(), is_fragment: false };
    let mut out = String::new();
    let mut copies: Vec<ImageCopy> = Vec::new();
    render_image(&mut out, &mut copies, &ctx, "https://x.org/a_b.png");
    assert_eq!(out, "#link(\"https://x.org/a_b.png\")[https://x.org/a\\_b.png]");
    assert!(copies.is_empty());
    let mut out = String::new();
    render_image(&mut out, &mut copies, &ctx, "../img/a.png");
    assert_eq!(out, "#figure(image(\"img/a.png\", width: 80%))");
    assert_eq!(copies.len(), 1);
    assert_eq!(copies[0].target, "../img/a.png");
    assert_eq!(copies[0].output_path, "img/a.png");
    assert!(!copies[0].in_fragment);
    assert_eq!(copies[0].chapter_dir, Some("guide".to_string()));

    let mut out = String::new();
    render_html(&mut out, &mut copies, &ctx, " <sup> ");
    render_html(&mut out, &mut copies, &ctx, "</sup>");
    render_html(&mut out, &mut copies, &ctx, "<sub>");
    render_html(&mut out, &mut copies, &ctx, "</sub>");
    render_html(&mut out, &mut copies, &ctx, "<br/>");
    render_html(&mut out, &mut copies, &ctx, "<div>");
    assert_eq!(out, "#super[]#sub[]\\\n");
    let mut out = String::new();
    render_html(&mut out, &mut copies, &ctx, "<img src=\"p.png\">");
    assert_eq!(out, "#figure(image(\"guide/p.png\", width: 80%))");
    assert_eq!(copies.len(), 2);
}

#[test]
fn templates_are_filled() {
    assert_eq!(
        apply_template("T: MDBOOK_RENDERKIT_TITLE\n/**** MDBOOK_RENDERKIT_CONTENT ****/\n", "A_B", "body"),
        "T: A\\_B\nbody\n"
    );
    assert_eq!(apply_template("head", "t", "body"), "head\n\nbody");
}

#[test]
fn code_block_languages() {
    assert_eq!(code_lang_of(&None), "");
    assert_eq!(code_lang_of(&Some(" rust ,ignore".to_string())), "rust");
    assert_eq!(code_lang_of(&Some("toml".to_string())), "toml");
}

#[test]
fn chapter_markdown_to_typst() {
    let c = chapter("Intro", "# Title\n\nHello *world*.\n", None, Some("guide/intro.md"));
    let ctx = chapter_context(&c);
    let (out, copies) = markdown_to_typst(&PdfConfig::default_config(), &c, &ctx);
    assert_eq!(
        out,
        "#heading(level: 1, outlined: false, bookmarked: false)[Title]\n\n#{\n  show heading: none\n  heading(numbering: none, level: 1, outlined: true, bookmarked: true)[Intro]\n} <guide-intro.html>\n\nHello #emph[world].\n\n"
    );
    assert!(copies.is_empty());
}

#[test]
fn chapter_headings_with_section_numbers() {
    let c = chapter("Chap", "## Sub\n", Some(vec![2]), Some("c.md"));
    let ctx = chapter_context(&c);
    let mut cfg = PdfConfig::default_config();
    cfg.section_number = true;
    let (out, _) = markdown_to_typst(&cfg, &c, &ctx);
    assert_eq!(
        out,
        "#heading(level: 2, outlined: false, bookmarked: false)[Sub]\n\n#{\n  show heading: none\n  heading(numbering: none, level: 1, outlined: true, bookmarked: true)[#\"2. Chap\"]\n} <c.html>\n\n"
    );
}

#[test]
fn links_lists_and_code() {
    let c = chapter(
        "L",
        "See [a](other.md#x) and `x_y`.\n\n- one\n- two\n\n```rust,ignore\nfn main() {}\n```\n",
        None,
        Some("guide/l.md"),
    );
    let ctx = chapter_context(&c);
    let (out, _) = markdown_to_typst(&PdfConfig::default_config(), &c, &ctx);
    assert_eq!(
        out,
        "See #link(<guide-other.html>)[a] and #raw(\"x_y\").\n\n#list(\n[one],\n[two],\n)\n\n#raw(\"fn main() {}\\n\", block: true, lang: \"rust\")\n\n"
    );
}

#[test]
fn admonitions_become_boxes() {
    let c = chapter(
        "A",
        "```admonish warning title=\"Careful\"\nBe *careful*.\n```\n",
        None,
        Some("a.md"),
    );
    let ctx = chapter_context(&c);
    let mut cfg = PdfConfig::default_config();
    cfg.admonish = true;
    let (out, _) = markdown_to_typst(&cfg, &c, &ctx);
    assert_eq!(
        out,
        "#block(width: 100%, fill: rgb(\"#fff8e1\"), inset: 10pt, radius: 4pt, stroke: (left: 3pt + rgb(\"#ff9100\")))[\n#text(fill: rgb(\"#ff9100\"), weight: \"bold\")[Careful]\n\nBe #emph[careful].\n]\n\n"
    );
    cfg.admonish = false;
    let (out, _) = markdown_to_typst(&cfg, &c, &ctx);
    assert_eq!(
        out,
        "#raw(\"Be *careful*.\\n\", block: true, lang: \"admonish warning title=\\\"Careful\\\"\")\n\n"
    );
}

#[test]
fn admonish_rendering_and_fragments() {
    let (body, copies) = markdown_to_typst_fragment("Text ![i](pic.png)\n");
    assert_eq!(body, "Text #figure(image(\"pic.png\", width: 80%))\n\n\n");
    assert_eq!(copies.len(), 1);
    assert!(copies[0].in_fragment);
    assert_eq!(copies[0].chapter_dir, Some(String::new()));
    let mut out = String::new();
    let mut copies: Vec<ImageCopy> = Vec::new();
    render_admonish(&mut out, &mut copies, "tip", "", "Hi");
    assert_eq!(
        out,
        "#block(width: 100%, fill: rgb(\"#e0f2f1\"), inset: 10pt, radius: 4pt, stroke: (left: 3pt + rgb(\"#00bfa5\")))[\n#text(fill: rgb(\"#00bfa5\"), weight: \"bold\")[Tip]\n\nHi\n]\n\n"
    );
}

#[test]
fn whole_book_typst() {
    let chapters = vec![
        chapter("One", "One.\n", Some(vec![1]), Some("one.md")),
        chapter("Two", "Two.\n", Some(vec![2]), Some("two.md")),
    ];
    let (out, copies) = render_typst("= MDBOOK_RENDERKIT_TITLE\n", None, &chapters, &PdfConfig::default_config());
    assert_eq!(
        out,
        "= mdBook\n\n\nOne.\n\n\n#pagebreak(weak: true)\n\nTwo.\n\n\n#pagebreak(weak: true)\n\n"
    );
    assert!(copies.is_empty());
}

#[test]
fn chapters_without_page_breaks() {
    let chapters = vec![
        chapter("One", "One.\n", None, Some("one.md")),
        chapter("Two", "Two.\n", None, Some("two.md")),
    ];
    let mut cfg = PdfConfig::default_config();
    cfg.chapter_no_pagebreak = true;
    let (out, _) = render_typst("T\n/**** MDBOOK_RENDERKIT_CONTENT ****/", Some("B"), &chapters, &cfg);
    assert_eq!(out, "T\nOne.\n\nTwo.\n\n");
}

#[test]
fn escaping_keeps_texts_apart() {
    let texts = ["a#", "a\\#", "\\\\", "\\", "#", "_x_", "\\_x\\_"];
    for (i, a) in texts.iter().enumerate() {
        for (j, b) in texts.iter().enumerate() {
            if i != j {
                assert_ne!(escape_typst(a), escape_typst(b), "{a} {b}");
            }
        }
    }
    let strings = ["a\nb", "a\\nb", "\"", "\\\"", "\t", "\\t"];
    for (i, a) in strings.iter().enumerate() {
        for (j, b) in strings.iter().enumerate() {
            if i != j {
                assert_ne!(escape_typst_string(a), escape_typst_string(b), "{a} {b}");
            }
        }
    }
}

#[test]
fn quotes_tables_tasks_and_footnotes() {
    let c = chapter(
        "Mix",
        "> quote\n\n| A | B |\n|:--|--:|\n| 1 | 2 |\n\n- [x] done\n\nText~~gone~~ here[^1]  \nnext\n\n[^1]: note\n\n---\n",
        None,
        Some("mix.md"),
    );
    let ctx = chapter_context(&c);
    let (out, _) = markdown_to_typst(&PdfConfig::default_config(), &c, &ctx);
    let expected = [
        "#quote(block: true)[\nquote\n\n\n]\n\n",
        "#table(\n  columns: 2,\n  inset: 6pt,\n  align: (left + horizon, right + horizon),\n",
        "[#strong[A]],\n[#strong[B]],\n[1],\n[2],\n\n)\n\n",
        "#list(\n[#raw(\"[x]\") done],\n)\n\n",
        "Text#strike[gone] here#super[1]\\\nnext\n\n",
        "note\n\n",
        "\n#line(length: 100%)\n\n",
    ]
    .concat();
    assert_eq!(out, expected);
}

#[test]
fn local_md_links_point_at_the_chapter_label() {
    let target = chapter_context(&chapter("Intro", "", None, Some("guide/intro.md")));
    assert_eq!(local_md_link_label(Some("guide"), "intro.md#part").as_deref(), Some(target.label.as_str()));
    assert_eq!(local_md_link_label(Some("other"), "../guide/intro.md").as_deref(), Some(target.label.as_str()));
    assert_eq!(chapter_context(&chapter("Draft", "", None, None)).label, "chapter");
}
