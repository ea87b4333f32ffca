use mdbook_renderkit::docx_model::LinkTarget;
use mdbook_renderkit::docx_registry::{
    bookmark_name, is_remote_url, local_asset_path, local_md_path, DocxRegistry, FIRST_ORDERED_NUM_ID,
};

fn anchor(t: LinkTarget) -> String {
    match t {
        LinkTarget::Anchor(a) => a,
        LinkTarget::External(u) => panic!("external {u}"),
    }
}

#[test]
fn bookmark_names_keep_word_characters() {
    assert_eq!(bookmark_name("My Section-2"), "My_Section_2");
    assert_eq!(bookmark_name("a.b/c_d"), "abc_d");
    assert_eq!(bookmark_name(""), "bookmark");
    assert_eq!(bookmark_name("é!?"), "bookmark");
}

#[test]
fn remote_links() {
    assert!(is_remote_url("http://a"));
    assert!(is_remote_url("https://a"));
    assert!(is_remote_url("mailto:a@b.c"));
    assert!(is_remote_url("tel:123"));
    assert!(!is_remote_url("ftp://a"));
    assert!(!is_remote_url("a.md"));
}

#[test]
fn local_paths_of_links_and_assets() {
    assert_eq!(local_md_path(Some("guide/intro.md"), "../other.md#x"), Some("other.md".to_string()));
    assert_eq!(local_md_path(Some("guide/intro.md"), "sub/page.md"), Some("guide/sub/page.md".to_string()));
    assert_eq!(local_md_path(None, "/root.md"), Some("root.md".to_string()));
    assert_eq!(local_md_path(None, "page.html"), None);
    assert_eq!(local_md_path(None, "https://x.org/a.md"), None);
    assert_eq!(local_asset_path(Some("guide/a.md"), "img/p.png?x=1#f"), Some("guide/img/p.png".to_string()));
    assert_eq!(local_asset_path(Some("guide/a.md"), "/img/p.png"), Some("img/p.png".to_string()));
    assert_eq!(local_asset_path(None, "?q"), None);
    assert_eq!(local_asset_path(None, "mailto:a@b.c"), None);
}

#[test]
fn chapter_bookmarks_are_stable() {
    let mut reg = DocxRegistry::new();
    assert_eq!(reg.bookmark_for_path("guide/intro.md"), "md_guideintromd");
    assert_eq!(reg.bookmark_for_path("guide/./intro.md"), "md_guideintromd");
    assert_eq!(reg.bookmark_id("md_guideintromd"), "1");
    assert_eq!(reg.bookmark_id("md_guideintromd"), "1");
    assert_eq!(reg.bookmark_id("other"), "2");
    let b = reg.chapter_bookmark(Some("guide/intro.md")).expect("bookmark");
    assert_eq!((b.id.as_str(), b.name.as_str()), ("1", "md_guideintromd"));
    assert!(reg.chapter_bookmark(None).is_none());
}

#[test]
fn clashing_bookmark_names_get_a_suffix() {
    let mut reg = DocxRegistry::new();
    assert_eq!(reg.bookmark_for_path("guide/intro.md"), "md_guideintromd");
    assert_eq!(reg.bookmark_for_path("a.md"), "md_amd");
    assert_eq!(reg.bookmark_id("md_amd"), "1");
    assert_eq!(reg.bookmark_for_path("a/md"), "md_amd_3");
    let long = "x".repeat(50);
    let name = reg.bookmark_for_path(&long);
    assert_eq!(name, format!("md_{}", "x".repeat(33)));
    assert_eq!(name.len(), 36);
}

#[test]
fn numbering_and_drawing_ids_count_up() {
    let mut reg = DocxRegistry::new();
    assert_eq!(FIRST_ORDERED_NUM_ID, 10);
    assert_eq!(reg.ordered_numbering_id(1, 1), 10);
    assert_eq!(reg.ordered_numbering_id(2, 5), 11);
    assert_eq!(reg.next_drawing(), 1);
    assert_eq!(reg.next_drawing(), 2);
}

#[test]
fn link_targets() {
    let mut reg = DocxRegistry::new();
    assert_eq!(anchor(reg.link_target(Some("guide/intro.md"), "#My Sec-1")), "My_Sec_1");
    assert_eq!(anchor(reg.link_target(Some("guide/intro.md"), "../other.md#x")), "md_othermd");
    assert_eq!(anchor(reg.link_target(None, "other.md")), "md_othermd");
    match reg.link_target(None, "https://x.org") {
        LinkTarget::External(u) => assert_eq!(u, "https://x.org"),
        _ => panic!("external"),
    }
    match reg.link_target(Some("guide/intro.md"), "file.txt") {
        LinkTarget::External(u) => assert_eq!(u, "file.txt"),
        _ => panic!("external"),
    }
}

#[test]
fn ordered_lists_never_take_bullet_or_task_ids() {
    let mut reg = DocxRegistry::new();
    for level in 0..5 {
        let id = reg.ordered_numbering_id(level, 1);
        assert!(id >= 10 && id != 1 && id != 3 && id != 4);
    }
}
