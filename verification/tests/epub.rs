use mdbook_renderkit::book::ChapterInfo;
use mdbook_renderkit::epub::{
    chapter_file, chapter_title, chapter_xhtml, content_level, epub_version, escape_html,
    populate_metadata, render_chapter, resource_entry, rewrite_image, rewrite_link, stylesheet_path,
    EpubConfig, EpubVersion, ResourceSet,
};

fn chapter(name: &str, number: Option<Vec<u32>>, source: Option<&str>, path: Option<&str>) -> ChapterInfo {
    ChapterInfo {
        name: name.to_string(),
        content: String::new(),
        number,
        source_path: source.map(|s| s.to_string()),
        path: path.map(|s| s.to_string()),
    }
}

const HEAD: &str = "<?xml version=\"1.0\" encoding=\"UTF-8\" standalone=\"no\"?>\n<!DOCTYPE html>\n<html xmlns=\"http://www.w3.org/1999/xhtml\" xmlns:epub=\"http://www.idpf.org/2007/ops\" xml:lang=\"en\" lang=\"en\">\n<head>\n<meta http-equiv=\"Content-Type\" content=\"text/html; charset=utf-8\" />\n<title>";

#[test]
fn default_settings_and_versions() {
    let cfg = EpubConfig::default_config();
    assert_eq!(cfg.epub_version, 3);
    assert!(!cfg.no_section_label);
    assert!(cfg.use_default_css);
    assert!(cfg.additional_css.is_empty());
    assert_eq!(cfg.cover_image, None);
    assert_eq!(epub_version(2), EpubVersion::V20);
    assert_eq!(epub_version(3), EpubVersion::V30);
    assert_eq!(epub_version(7), EpubVersion::V30);
}

#[test]
fn metadata_entries_in_order() {
    let authors = vec!["Ann".to_string(), "Bob".to_string()];
    let m = populate_metadata(Some("Book"), None, None, &authors);
    let expected: Vec<(String, String)> = vec![
        ("generator".to_string(), "mdbook-renderkit".to_string()),
        ("lang".to_string(), "en".to_string()),
        ("title".to_string(), "Book".to_string()),
        ("author".to_string(), "Ann, Bob".to_string()),
    ];
    assert_eq!(m, expected);
    let m = populate_metadata(None, Some("About"), Some("de"), &[]);
    let expected: Vec<(String, String)> = vec![
        ("generator".to_string(), "mdbook-renderkit".to_string()),
        ("lang".to_string(), "de".to_string()),
        ("description".to_string(), "About".to_string()),
    ];
    assert_eq!(m, expected);
}

#[test]
fn chapter_titles_levels_and_files() {
    let mut cfg = EpubConfig::default_config();
    let c = chapter("Setup", Some(vec![1, 2]), Some("guide/setup.md"), None);
    assert_eq!(chapter_title(&cfg, &c), "1.2. Setup");
    cfg.no_section_label = true;
    assert_eq!(chapter_title(&cfg, &c), "Setup");
    let u = chapter("Preface", None, None, Some("preface.md"));
    cfg.no_section_label = false;
    assert_eq!(chapter_title(&cfg, &u), "Preface");
    assert_eq!(content_level(&c), 1);
    assert_eq!(content_level(&u), 0);
    assert_eq!(chapter_file(&c), Some("guide/setup.html".to_string()));
    assert_eq!(chapter_file(&u), Some("preface.html".to_string()));
    assert_eq!(chapter_file(&chapter("Draft", None, None, None)), None);
}

#[test]
fn epub_links() {
    assert_eq!(rewrite_link(Some("guide"), "other.md"), "other.html");
    assert_eq!(rewrite_link(None, "other.md#sec"), "other.html#sec");
    assert_eq!(rewrite_link(None, "#sec"), "#sec");
    assert_eq!(rewrite_link(None, "https://x.org/a.md"), "https://x.org/a.md");
    assert_eq!(rewrite_link(None, "me@example.org"), "me@example.org");
    assert_eq!(rewrite_link(None, "file.txt"), "file.txt");
}

#[test]
fn stylesheet_paths() {
    assert_eq!(stylesheet_path(None), "stylesheet.css");
    assert_eq!(stylesheet_path(Some("")), "stylesheet.css");
    assert_eq!(stylesheet_path(Some("guide")), "../stylesheet.css");
    assert_eq!(stylesheet_path(Some("a/b")), "../../stylesheet.css");
    assert_eq!(stylesheet_path(Some("./a//b/")), "../../../stylesheet.css");
    assert_eq!(stylesheet_path(Some("/a")), "../../stylesheet.css");
}

#[test]
fn html_escaping() {
    assert_eq!(escape_html("a < b & \"c\" 'd' >"), "a &lt; b &amp; &quot;c&quot; &#39;d&#39; &gt;");
}

#[test]
fn chapter_pages() {
    let page = chapter_xhtml("A & B", "<p>x</p>\n", Some("guide"));
    let expected = format!(
        "{HEAD}A &amp; B</title>\n<link rel=\"stylesheet\" href=\"../stylesheet.css\" />\n</head>\n<body>\n<p>x</p>\n\n</body>\n</html>\n"
    );
    assert_eq!(page, expected);
}

#[test]
fn media_types_and_images() {
    assert_eq!(resource_entry("img/a.png"), ("img/a.png".to_string(), "image/png".to_string()));
    assert_eq!(resource_entry("data/file"), ("data/file".to_string(), "application/octet-stream".to_string()));
    assert_eq!(
        rewrite_image(Some("guide"), "../img/a.jpg#x"),
        Some(("img/a.jpg".to_string(), "image/jpeg".to_string()))
    );
    assert_eq!(rewrite_image(None, "https://x.org/a.png"), None);
    assert_eq!(rewrite_image(None, "data:image/png;base64,AAAA"), None);
    assert_eq!(rewrite_image(None, "#only"), None);
}

#[test]
fn resources_are_added_once() {
    let mut set = ResourceSet::new();
    assert!(!set.contains("a.png"));
    assert!(set.insert("a.png"));
    assert!(set.contains("a.png"));
    assert!(!set.insert("a.png"));
    assert!(set.insert("b.png"));
}

#[test]
fn chapters_render_to_xhtml() {
    let mut set = ResourceSet::new();
    let (page, added) = render_chapter(
        "Ch",
        "Hello [x](a.md#b) ![i](img/p.png) ![j](img/p.png)\n",
        Some("guide"),
        &mut set,
    );
    let expected = format!(
        "{HEAD}Ch</title>\n<link rel=\"stylesheet\" href=\"../stylesheet.css\" />\n</head>\n<body>\n<p>Hello <a href=\"a.html#b\">x</a> <img src=\"img/p.png\" alt=\"i\" /> <img src=\"img/p.png\" alt=\"j\" /></p>\n\n</body>\n</html>\n"
    );
    assert_eq!(page, expected);
    assert_eq!(added, vec![("guide/img/p.png".to_string(), "image/png".to_string())]);
    let (_, again) = render_chapter("Ch2", "![i](../guide/img/p.png)\n", Some("other"), &mut set);
    assert!(again.is_empty());
}

#[test]
fn html_escaping_keeps_texts_apart() {
    let texts = ["&amp;", "&", "<", "&lt;", "'", "&#39;", "\"", "&quot;"];
    for (i, a) in texts.iter().enumerate() {
        for (j, b) in texts.iter().enumerate() {
            if i != j {
                assert_ne!(escape_html(a), escape_html(b), "{a} {b}");
            }
        }
    }
}

#[test]
fn every_link_of_a_chapter_is_rewritten_in_order() {
    let mut set = ResourceSet::new();
    let (page, _) = render_chapter(
        "Links",
        "[a](one.md) [b](https://x.org/y.md) [c](#top) [d](mailto:me@x.org)\n\n- [e](sub/two.md#s)\n",
        None,
        &mut set,
    );
    assert!(page.contains("<a href=\"one.html\">a</a>"));
    assert!(page.contains("<a href=\"https://x.org/y.md\">b</a>"));
    assert!(page.contains("<a href=\"#top\">c</a>"));
    assert!(page.contains("<a href=\"mailto:me@x.org\">d</a>"));
    assert!(page.contains("<a href=\"sub/two.html#s\">e</a>"));
}
