use mdbook_renderkit::book::{supports_renderer, ChapterInfo};
use mdbook_renderkit::heading_number::{
    chapter_level, chapter_number_text, format_section_components, HeadingNumber, HeadingNumberer,
};

fn chapter(number: Vec<u32>) -> ChapterInfo {
    ChapterInfo {
        name: "chapter".to_string(),
        content: String::new(),
        number: Some(number),
        source_path: Some("chapter.md".to_string()),
        path: Some("chapter.md".to_string()),
    }
}

#[test]
fn heading_numbers_start_from_mdbook_chapter_number() {
    let chapter = chapter(vec![2, 3]);
    let mut numberer = HeadingNumberer::new(&chapter, 2).expect("numberer");

    assert_eq!(
        numberer.next(2),
        HeadingNumber {
            level: 2,
            text: "2.3.".to_string(),
        }
    );
    assert_eq!(
        numberer.next(3),
        HeadingNumber {
            level: 3,
            text: "2.3.1.".to_string(),
        }
    );
    assert_eq!(
        numberer.next(3),
        HeadingNumber {
            level: 3,
            text: "2.3.2.".to_string(),
        }
    );
    assert_eq!(
        numberer.next(4),
        HeadingNumber {
            level: 4,
            text: "2.3.2.1.".to_string(),
        }
    );
}

#[test]
fn heading_numbers_clamp_to_six_levels() {
    let chapter = chapter(vec![1, 2, 3, 4, 5]);
    let mut numberer = HeadingNumberer::new(&chapter, 1).expect("numberer");

    assert_eq!(numberer.next(1).text, "1.2.3.4.5.");
    assert_eq!(numberer.next(6).level, 6);
    assert_eq!(numberer.next(6).text, "1.2.3.4.5.2.");
}

#[test]
fn unnumbered_chapter_has_no_numberer() {
    let mut c = chapter(vec![]);
    assert!(HeadingNumberer::new(&c, 1).is_none());
    c.number = None;
    assert!(HeadingNumberer::new(&c, 1).is_none());
    assert_eq!(chapter_number_text(&c), None);
}

#[test]
fn later_headings_get_later_numbers() {
    // Each number handed out comes after the one before it.
    let c = chapter(vec![3]);
    let mut n = HeadingNumberer::new(&c, 1).expect("numberer");
    assert_eq!(n.next(1).text, "3.");
    assert_eq!(n.next(2).text, "3.1.");
    assert_eq!(n.next(3).text, "3.1.1.");
    assert_eq!(n.next(2).text, "3.2.");
    assert_eq!(n.next(1).text, "4.");
    assert_eq!(n.next(2).text, "4.1.");
}

#[test]
fn headings_above_the_first_level_stay_at_chapter_level() {
    let c = chapter(vec![1, 4]);
    let mut n = HeadingNumberer::new(&c, 3).expect("numberer");
    let h = n.next(1);
    assert_eq!(h.level, 2);
    assert_eq!(h.text, "1.4.");
    let h = n.next(2);
    assert_eq!(h.level, 2);
    assert_eq!(h.text, "1.5.");
}

#[test]
fn first_level_is_clamped() {
    let c = chapter(vec![7]);
    let mut n = HeadingNumberer::new(&c, 0).expect("numberer");
    assert_eq!(n.next(1).text, "7.");
    let mut n = HeadingNumberer::new(&c, 9).expect("numberer");
    assert_eq!(n.next(6).text, "7.");
    assert_eq!(n.next(9).text, "8.");
}

#[test]
fn long_chapter_numbers_are_cut_to_six() {
    let c = chapter(vec![1, 2, 3, 4, 5, 6, 7]);
    let mut n = HeadingNumberer::new(&c, 1).expect("numberer");
    let h = n.next(1);
    assert_eq!(h.level, 6);
    assert_eq!(h.text, "1.2.3.4.5.6.");
    assert_eq!(n.next(6).text, "1.2.3.4.5.7.");
}

#[test]
fn advance_to_moves_counters() {
    let c = chapter(vec![2]);
    let mut n = HeadingNumberer::new(&c, 1).expect("numberer");
    assert_eq!(n.next(1).text, "2.");
    n.advance_to(3);
    assert_eq!(n.next(3).text, "2.1.2.");
}

#[test]
fn advance_to_any_level() {
    let c = chapter(vec![2]);
    let mut n = HeadingNumberer::new(&c, 1).expect("numberer");
    assert_eq!(n.next(1).text, "2.");
    n.advance_to(0);
    n.advance_to(2);
    assert_eq!(n.next(2).text, "1.2.");
    n.advance_to(9);
    n.advance_to(8);
    n.advance_to(1);
    assert_eq!(n.next(2).text, "2.1.");
}

#[test]
fn section_components_format() {
    assert_eq!(format_section_components(&[]), "0");
    assert_eq!(format_section_components(&[1]), "1.");
    assert_eq!(format_section_components(&[12, 0, 3]), "12.0.3.");
}

#[test]
fn chapter_number_text_and_level() {
    let c = chapter(vec![2, 10]);
    assert_eq!(chapter_number_text(&c), Some("2.10.".to_string()));
    assert_eq!(chapter_level(&c), 2);
    let mut c = chapter(vec![]);
    assert_eq!(chapter_number_text(&c), None);
    c.number = None;
    assert_eq!(chapter_level(&c), 1);
}

#[test]
fn preprocessor_renderers() {
    for r in ["pdf", "docx", "render-pdf", "render-docx"] {
        assert!(supports_renderer(r));
    }
    for r in ["html", "epub", "PDF", ""] {
        assert!(!supports_renderer(r));
    }
}
