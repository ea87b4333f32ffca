use syntect::easy::HighlightLines;
use syntect::highlighting::{FontStyle, ThemeSet};
use syntect::parsing::SyntaxSet;
use mdbook_renderkit::docx_code::{
    background_fill, code_lines, code_run_from, color_to_hex, language_of, plain_code_lines,
    split_char, CodeHighlighter,
};
use mdbook_renderkit::docx_parts::CodeRun;
use mdbook_renderkit::docx_style::DocxConfig;

fn line_text(line: &[CodeRun]) -> String {
    line.iter().map(|r| r.text.as_str()).collect::<Vec<_>>().join("")
}

#[test]
fn splitting_code_into_lines() {
    assert_eq!(split_char("a\nb\n", '\n'), vec!["a", "b", ""]);
    assert_eq!(split_char("", '\n'), vec![""]);
    assert_eq!(code_lines("a\nb\n"), vec!["a", "b"]);
    assert_eq!(code_lines("a\n\n"), vec!["a", ""]);
    assert_eq!(code_lines(""), vec![""]);
    assert_eq!(code_lines("\n"), vec![""]);
    assert_eq!(code_lines("x"), vec!["x"]);
}

#[test]
fn plain_lines_have_one_unstyled_run() {
    let lines = plain_code_lines("let x = 1;\n  y\n");
    assert_eq!(lines.len(), 2);
    assert_eq!(lines[0].len(), 1);
    assert_eq!(lines[0][0].text, "let x = 1;");
    assert_eq!(lines[1][0].text, "  y");
    assert_eq!(lines[1][0].style.color, None);
    assert!(!lines[1][0].style.bold);
}

#[test]
fn colours_are_uppercase_hex() {
    assert_eq!(color_to_hex(255, 0, 171), "FF00AB");
    assert_eq!(color_to_hex(1, 2, 3), "010203");
    assert_eq!(background_fill(Some((255, 255, 255))), "F0F0F0");
    assert_eq!(background_fill(None), "F0F0F0");
    assert_eq!(background_fill(Some((0x28, 0x2c, 0x34))), "282C34");
}

#[test]
fn highlight_styles_become_runs() {
    let r = code_run_from(1, 2, 3, 1 | 2 | 4, "t".to_string());
    assert_eq!(r.text, "t");
    assert_eq!(r.style.color, Some("010203".to_string()));
    assert!(r.style.bold && r.style.italic && r.style.underline);
    let r = code_run_from(0, 0, 0, 4, "u".to_string());
    assert!(!r.style.bold && r.style.italic && !r.style.underline);
}

#[test]
fn language_tokens() {
    assert_eq!(language_of("rust,ignore"), "rust");
    assert_eq!(language_of("toml extra"), "toml");
    assert_eq!(language_of(" rust"), "");
    assert_eq!(language_of(""), "");
}

#[test]
fn highlighter_settings() {
    let h = CodeHighlighter::new(&DocxConfig::default_config());
    assert!(h.enabled);
    assert_eq!(h.background, "F0F0F0");
    let mut cfg = DocxConfig::default_config();
    cfg.code_highlight = false;
    cfg.code_theme = "no such theme".to_string();
    let h = CodeHighlighter::new(&cfg);
    assert!(!h.enabled);
    assert_eq!(h.background, "F0F0F0");
    let mut cfg = DocxConfig::default_config();
    cfg.code_theme = "base16-ocean.dark".to_string();
    let h = CodeHighlighter::new(&cfg);
    assert_eq!(h.background, "2B303B");
}

#[test]
fn highlighted_lines_keep_the_text() {
    let h = CodeHighlighter::new(&DocxConfig::default_config());
    let lines = h.lines("rust", "fn main() {\n    let x = 1;\n}\n").expect("highlight");
    assert_eq!(lines.len(), 3);
    assert_eq!(line_text(&lines[0]), "fn main() {");
    assert_eq!(line_text(&lines[1]), "    let x = 1;");
    assert_eq!(line_text(&lines[2]), "}");
    assert!(lines[0].len() > 1);
    assert!(lines[0].iter().all(|r| r.style.color.is_some()));
}

#[test]
fn unknown_or_missing_languages_stay_plain() {
    let h = CodeHighlighter::new(&DocxConfig::default_config());
    let lines = h.lines("nosuchlanguage", "a\nb").expect("plain");
    assert_eq!(lines.len(), 2);
    assert_eq!(lines[1][0].text, "b");
    assert_eq!(lines[1][0].style.color, None);
    let lines = h.lines("", "x").expect("plain");
    assert_eq!(lines[0][0].style.color, None);
    let mut cfg = DocxConfig::default_config();
    cfg.code_highlight = false;
    let h = CodeHighlighter::new(&cfg);
    let lines = h.lines("rust", "fn x() {}").expect("plain");
    assert_eq!(lines.len(), 1);
    assert_eq!(lines[0].len(), 1);
    assert_eq!(lines[0][0].style.color, None);
}

#[test]
fn highlighting_follows_syntect_and_the_chosen_theme() {
    let syntaxes = SyntaxSet::load_defaults_newlines();
    let themes = ThemeSet::load_defaults();
    for (asked, used) in [("Solarized (dark)", "Solarized (dark)"), ("no such theme", "InspiredGitHub")] {
        let mut cfg = DocxConfig::default_config();
        cfg.code_theme = asked.to_string();
        let h = CodeHighlighter::new(&cfg);
        let lines = h.lines("rust", "fn main() {\n    let x = \"s\";\n}\n").expect("highlight");
        let syntax = syntaxes.find_syntax_by_token("rust").expect("rust");
        let mut reference = HighlightLines::new(syntax, &themes.themes[used]);
        for (i, line) in ["fn main() {", "    let x = \"s\";", "}"].iter().enumerate() {
            let expected = reference.highlight_line(line, &syntaxes).expect("reference");
            assert_eq!(lines[i].len(), expected.len());
            for (run, (style, text)) in lines[i].iter().zip(expected) {
                assert_eq!(run.text, text);
                let c = style.foreground;
                assert_eq!(run.style.color, Some(format!("{:02X}{:02X}{:02X}", c.r, c.g, c.b)));
                assert_eq!(run.style.bold, style.font_style.contains(FontStyle::BOLD));
                assert_eq!(run.style.italic, style.font_style.contains(FontStyle::ITALIC));
                assert_eq!(run.style.underline, style.font_style.contains(FontStyle::UNDERLINE));
            }
        }
    }
    let mut cfg = DocxConfig::default_config();
    cfg.code_theme = "Solarized (dark)".to_string();
    let dark = CodeHighlighter::new(&cfg).lines("rust", "fn main() {}").expect("dark");
    let light = CodeHighlighter::new(&DocxConfig::default_config()).lines("rust", "fn main() {}").expect("light");
    assert_ne!(dark[0][0].style.color, light[0][0].style.color);
}
