use mdbook_renderkit::image::{
    image_content_type, image_dimensions, jpeg_dimensions, jpeg_scan_result, path_extension,
    png_dimensions,
};
use mdbook_renderkit::text::{
    ends_with, find_char, find_char_from, find_str, join_strings, push_decimal, replace_chars,
    starts_with, trim_chars, trim_end_chars, trim_start_chars,
};

fn chars_of(s: &str) -> Vec<char> {
    s.chars().collect()
}

fn string_of(v: &[char]) -> String {
    v.iter().collect()
}

fn png(width: u32, height: u32) -> Vec<u8> {
    let mut v = vec![0x89, b'P', b'N', b'G', b'\r', b'\n', 0x1a, b'\n', 0, 0, 0, 13];
    v.extend_from_slice(b"IHDR");
    v.extend_from_slice(&width.to_be_bytes());
    v.extend_from_slice(&height.to_be_bytes());
    v
}

fn jpeg(width: u16, height: u16) -> Vec<u8> {
    let mut v = vec![0xFF, 0xD8, 0xFF, 0xE0, 0x00, 0x10];
    v.extend_from_slice(&[0u8; 14]);
    v.extend_from_slice(&[0xFF, 0xC0, 0x00, 0x11, 0x08]);
    v.extend_from_slice(&height.to_be_bytes());
    v.extend_from_slice(&width.to_be_bytes());
    v.extend_from_slice(&[0u8; 12]);
    v
}

#[test]
fn png_sizes() {
    assert_eq!(png_dimensions(&png(640, 480)), Some((640, 480)));
    assert_eq!(png_dimensions(&png(640, 480)[..23]), None);
    assert_eq!(png_dimensions(&jpeg(1, 1)), None);
    assert_eq!(image_dimensions(&png(3, 70000)), Some((3, 70000)));
}

#[test]
fn jpeg_sizes() {
    assert_eq!(jpeg_dimensions(&jpeg(640, 480)), Some((640, 480)));
    assert_eq!(image_dimensions(&jpeg(12, 34)), Some((12, 34)));
    let sos = vec![0xFF, 0xD8, 0xFF, 0xDA, 0, 4, 0, 0, 0, 0, 0, 0, 0];
    assert_eq!(jpeg_dimensions(&sos), None);
    assert_eq!(jpeg_dimensions(&[0xFF, 0xD8, 0xFF]), None);
    assert_eq!(jpeg_scan_result(b"not an image at all"), (true, None));
    let cut = vec![0xFF, 0xD8, 0xFF, 0xFF, 0xFF, 0xFF, 0xFF, 0xFF, 0xC0, 0x00, 0x02, 0x00];
    assert!(!jpeg_scan_result(&cut).0);
}

#[test]
fn image_media_types() {
    assert_eq!(image_content_type("x.gif", &png(1, 1)), Some("image/png"));
    assert_eq!(image_content_type("x.png", &jpeg(1, 1)), Some("image/jpeg"));
    assert_eq!(image_content_type("a/b.PNG", b"??"), Some("image/png"));
    assert_eq!(image_content_type("b.Jpg", b""), Some("image/jpeg"));
    assert_eq!(image_content_type("b.jpeg", b""), Some("image/jpeg"));
    assert_eq!(image_content_type("b.gif", b""), None);
    assert_eq!(image_content_type("png", b""), None);
}

#[test]
fn file_extensions() {
    assert_eq!(path_extension("a.tar.gz"), Some("gz".chars().collect()));
    assert_eq!(path_extension("dir.x/file"), None);
    assert_eq!(path_extension(".hidden"), None);
    assert_eq!(path_extension("a."), Some(vec![]));
    assert_eq!(path_extension(".."), None);
}

#[test]
fn text_helpers() {
    let s = chars_of("  hello world  ");
    assert_eq!(string_of(&trim_chars(&s)), "hello world");
    assert_eq!(string_of(&trim_start_chars(&s)), "hello world  ");
    assert_eq!(string_of(&trim_end_chars(&s)), "  hello world");
    assert!(starts_with(&s, "  he"));
    assert!(ends_with(&s, "d  "));
    assert_eq!(find_char(&s, 'o'), Some(6));
    assert_eq!(find_char_from(&s, 'o', 7), Some(9));
    assert_eq!(find_str(&s, &chars_of("world")), Some(8));
    assert_eq!(find_str(&s, &chars_of("xyz")), None);
    assert_eq!(string_of(&replace_chars(&chars_of("a-b-c"), &chars_of("-"), &chars_of("+="))), "a+=b+=c");
    assert_eq!(join_strings(&["a".to_string(), "b".to_string(), "c".to_string()], ", "), "a, b, c");
    assert_eq!(join_strings(&[], ", "), "");
    let mut out = String::from("n=");
    push_decimal(&mut out, 0);
    push_decimal(&mut out, 1234567890123);
    assert_eq!(out, "n=01234567890123");
}
