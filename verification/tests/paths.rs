use mdbook_renderkit::paths::{
    find_last_char, is_remote_url, join_parts, join_path, join_under, looks_like_email,
    md_link_to_html, md_path_to_html, normalize_join, normalize_output_path, normalize_path,
    normalized_output_path_str, output_filename, parent_of, resolve_source_path, set_extension,
    source_candidates, strip_fragment,
};

#[test]
fn remote_urls_and_emails() {
    assert!(is_remote_url("http://example.org"));
    assert!(is_remote_url("https://example.org/x"));
    assert!(!is_remote_url("ftp://example.org"));
    assert!(!is_remote_url("mailto:a@b.c"));
    assert!(looks_like_email("me@example.org"));
    assert!(!looks_like_email("@example.org"));
    assert!(!looks_like_email("me@example"));
    assert!(!looks_like_email("me@example."));
    assert!(!looks_like_email("example.org"));
}

#[test]
fn fragments_are_stripped() {
    assert_eq!(strip_fragment("a.md#b#c"), "a.md");
    assert_eq!(strip_fragment("a.md"), "a.md");
    assert_eq!(strip_fragment("#top"), "");
}

#[test]
fn paths_are_normalised() {
    assert_eq!(normalize_path("a/./b/../c"), "a/c");
    assert_eq!(normalize_path("../x"), "x");
    assert_eq!(normalize_path("a//b/"), "a/b");
    assert_eq!(normalize_join("/abs/x"), "abs/x");
    assert_eq!(normalize_join("a/b/../../.."), "");
    assert_eq!(join_parts(&vec!["a".chars().collect(), "b".chars().collect()]), "a/b");
}

#[test]
fn output_paths_are_taken_relative_to_the_chapter() {
    assert_eq!(normalize_output_path(Some("guide"), "img/a.png"), "guide/img/a.png");
    assert_eq!(normalize_output_path(Some("guide"), "../a.png#frag"), "a.png");
    assert_eq!(normalize_output_path(Some("guide"), "/img/a.png"), "img/a.png");
    assert_eq!(normalize_output_path(None, "./a.png"), "a.png");
    assert_eq!(normalized_output_path_str(Some("x/y"), "../z.md"), "x/z.md");
    assert_eq!(join_path("", "a"), "a");
    assert_eq!(join_path("d", "a"), "d/a");
}

#[test]
fn markdown_paths_become_html() {
    assert_eq!(md_link_to_html("a/b.md"), "a/b.html");
    assert_eq!(md_link_to_html("a/b.txt"), "a/b.txt");
    assert_eq!(md_path_to_html("guide/x.md"), "guide/x.html");
    assert_eq!(md_path_to_html("README"), "README.html");
    assert_eq!(set_extension("a/b.tar.gz", "html"), "a/b.tar.html");
    assert_eq!(set_extension(".hidden", "html"), ".hidden.html");
    assert_eq!(set_extension("dir.d/file", "pdf"), "dir.d/file.pdf");
}

#[test]
fn output_file_names() {
    assert_eq!(output_filename(Some("My Book"), "pdf"), "My Book.pdf");
    assert_eq!(output_filename(Some("v1.2"), "docx"), "v1.docx");
    assert_eq!(output_filename(None, "epub"), "book.epub");
}

#[test]
fn parents_and_last_chars() {
    assert_eq!(parent_of("a/b/c.md"), Some("a/b".to_string()));
    assert_eq!(parent_of("c.md"), Some(String::new()));
    assert_eq!(parent_of(""), None);
    let s: Vec<char> = "a/b/c".chars().collect();
    assert_eq!(find_last_char(&s, '/'), Some(3));
    assert_eq!(find_last_char(&s, 'x'), None);
}

#[test]
fn source_files_are_looked_up_in_order() {
    assert_eq!(join_under("src", "img/a.png"), "src/img/a.png");
    assert_eq!(join_under("src/", "a"), "src/a");
    assert_eq!(join_under("src", "/abs/a"), "/abs/a");
    assert_eq!(join_under("", "a"), "a");
    let c = source_candidates("src", Some("src/guide"), "a.png#f");
    assert_eq!(c, vec!["src/a.png".to_string(), "src/guide/a.png".to_string()]);
    let c1 = source_candidates("src", None, "a.png");
    assert_eq!(c1, vec!["src/a.png".to_string()]);
    assert_eq!(resolve_source_path(&c, &vec![false, true]), "src/guide/a.png");
    assert_eq!(resolve_source_path(&c, &vec![true, true]), "src/a.png");
    assert_eq!(resolve_source_path(&c, &vec![false, false]), "src/a.png");
}

#[test]
fn normalising_twice_changes_nothing() {
    for p in ["a/./b/../c", "/x//y/", "../..", "", "a/b/c", "./.", "a/../../b/./c/"] {
        let once = normalize_path(p);
        assert_eq!(normalize_path(&once), once, "{p}");
        assert_eq!(normalize_join(&once), once, "{p}");
    }
}

#[test]
fn normalized_paths_hold_only_names() {
    assert_eq!(normalize_path("/a/./b/../c.md"), "a/c.md");
    assert_eq!(normalize_path("../../x"), "x");
    assert_eq!(normalize_join("/a/./b/../c"), "a/c");
    for p in ["/a/./b/../c.md", "../../x", "a//b/", "./", "/", "a/../.."] {
        let n = normalize_path(p);
        assert_eq!(normalize_path(&n), n);
        if !n.is_empty() {
            assert!(n.split('/').all(|s| !s.is_empty() && s != "." && s != ".."), "{p}");
        }
    }
}
