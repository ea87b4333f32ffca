//! Code blocks in DOCX output: their lines, and the coloured runs that
//! `syntect` highlighting gives each line.

use vstd::prelude::*;
use crate::docx_parts::{code_runs_view, plain_code_style, CodeRun, CodeRunStyle, CodeStyleV};
use crate::docx_style::DocxConfig;
use crate::highlight::{
    bundled_theme_background, bundled_theme_names, highlight_block, highlighted_lines, load_highlighting, pieces_text,
    pieces_view, theme_background, Highlighting,
};
use crate::text::{chars_of, first_index_from, lemma_first_index_from, push_char, string_of, substring, trim, trim_chars};

verus! {

/// The pieces of `s` from `i` on between `c`s, as `str::split` yields them.
pub open spec fn pieces_from(s: Seq<char>, c: char, i: int) -> Seq<Seq<char>>
    decreases s.len() - i,
{
    match first_index_from(s, c, i) {
        None => seq![s.subrange(i, s.len() as int)],
        Some(j) => if i <= j < s.len() {
            seq![s.subrange(i, j)] + pieces_from(s, c, j + 1)
        } else {
            seq![]
        },
    }
}

/// The lines of a code block: its pieces between newlines, without an
/// empty last one, and one empty line for empty code.
pub open spec fn code_line_texts(code: Seq<char>) -> Seq<Seq<char>> {
    let v = pieces_from(code, '\n', 0);
    let v = if v.len() > 0 && v.last().len() == 0 { v.drop_last() } else { v };
    if v.len() == 0 { seq![seq![]] } else { v }
}

/// The pieces of `text` between `c`s (see `pieces_from`).
pub fn split_char(text: &str, c: char) -> (r: Vec<String>)
    ensures
        crate::text::string_views(r@) == pieces_from(text@, c, 0),
{
    let s = chars_of(text);
    let mut lines: Vec<String> = Vec::new();
    let mut start: usize = 0;
    let mut i: usize = 0;
    proof { lemma_first_index_from(s@, c, 0); }
    while i < s.len()
        invariant
            s@ == text@,
            start <= i <= s.len(),
            forall|j: int| start <= j < i ==> s@[j] != c,
            crate::text::string_views(lines@) + pieces_from(s@, c, start as int) == pieces_from(s@, c, 0),
        decreases s.len() - i,
    {
        if s[i] == c {
            proof {
                lemma_first_index_from(s@, c, start as int);
                assert(first_index_from(s@, c, start as int) == Some(i as int));
            }
            let piece = substring(&s, start, i);
            let ghost before = lines@;
            lines.push(piece);
            assert(crate::text::string_views(lines@) =~= crate::text::string_views(before).push(piece@));
            assert(pieces_from(s@, c, start as int) =~= seq![piece@] + pieces_from(s@, c, i + 1));
            start = i + 1;
        }
        i += 1;
    }
    proof {
        lemma_first_index_from(s@, c, start as int);
        assert(pieces_from(s@, c, start as int) == seq![s@.subrange(start as int, s@.len() as int)]);
    }
    let last = substring(&s, start, s.len());
    lines.push(last);
    assert(crate::text::string_views(lines@) =~= pieces_from(s@, c, 0));
    lines
}

/// The lines of `code` (see `code_line_texts`).
pub fn code_lines(code: &str) -> (r: Vec<String>)
    ensures
        crate::text::string_views(r@) == code_line_texts(code@),
{
    let mut lines = split_char(code, '\n');
    if lines.len() > 0 && lines[lines.len() - 1].as_str().is_empty() {
        lines.pop();
        assert(crate::text::string_views(lines@) =~= pieces_from(code@, '\n', 0).drop_last());
    }
    if lines.len() == 0 {
        lines.push(String::new());
        assert(crate::text::string_views(lines@) =~= seq![Seq::<char>::empty()]);
    }
    lines
}

/// The runs of an unhighlighted code block: one plain run per line.
pub open spec fn plain_lines_v(code: Seq<char>) -> Seq<Seq<(Seq<char>, CodeStyleV)>> {
    let lines = code_line_texts(code);
    Seq::new(lines.len(), |i: int| seq![(lines[i], plain_code_style())])
}

/// The lines of a code block as runs of text and style.
pub open spec fn code_lines_view(lines: Seq<Vec<CodeRun>>) -> Seq<Seq<(Seq<char>, CodeStyleV)>> {
    Seq::new(lines.len(), |i: int| code_runs_view(lines[i]@))
}

/// The runs of an unhighlighted code block (see `plain_lines_v`).
pub fn plain_code_lines(code: &str) -> (r: Vec<Vec<CodeRun>>)
    ensures
        code_lines_view(r@) == plain_lines_v(code@),
{
    let lines = code_lines(code);
    let mut out: Vec<Vec<CodeRun>> = Vec::new();
    let mut i: usize = 0;
    while i < lines.len()
        invariant
            i <= lines.len(),
            crate::text::string_views(lines@) == code_line_texts(code@),
            code_lines_view(out@) =~= plain_lines_v(code@).take(i as int),
        decreases lines.len() - i,
    {
        let run = CodeRun { text: lines[i].clone(), style: CodeRunStyle::plain() };
        let line = vec![run];
        assert(code_runs_view(line@) =~= seq![(lines@[i as int]@, plain_code_style())]);
        let ghost before = out@;
        out.push(line);
        assert(code_lines_view(out@) =~= code_lines_view(before).push(code_runs_view(line@)));
        assert(plain_lines_v(code@).take(i + 1) =~= plain_lines_v(code@).take(i as int).push(plain_lines_v(code@)[i as int]));
        i += 1;
    }
    out
}

/// The uppercase hexadecimal digit of `d` (for `d < 16`).
pub open spec fn hex_digit(d: nat) -> char {
    if d < 10 { (('0' as nat) + d) as char } else { (('A' as nat) + d - 10) as char }
}

/// A colour as six uppercase hexadecimal digits.
pub open spec fn color_hex(r: u8, g: u8, b: u8) -> Seq<char> {
    seq![
        hex_digit((r / 16) as nat), hex_digit((r % 16) as nat),
        hex_digit((g / 16) as nat), hex_digit((g % 16) as nat),
        hex_digit((b / 16) as nat), hex_digit((b % 16) as nat),
    ]
}

fn hex_char(d: u8) -> (c: char)
    requires
        d < 16,
    ensures
        c == hex_digit(d as nat),
{
    if d < 10 {
        let c = (48u8 + d) as char;
        c
    } else {
        let c = (55u8 + d) as char;
        c
    }
}

/// A colour as six uppercase hexadecimal digits (see `color_hex`).
pub fn color_to_hex(r: u8, g: u8, b: u8) -> (s: String)
    ensures
        s@ == color_hex(r, g, b),
{
    let mut s = String::new();
    push_char(&mut s, hex_char(r / 16));
    push_char(&mut s, hex_char(r % 16));
    push_char(&mut s, hex_char(g / 16));
    push_char(&mut s, hex_char(g % 16));
    push_char(&mut s, hex_char(b / 16));
    push_char(&mut s, hex_char(b % 16));
    assert(s@ =~= color_hex(r, g, b));
    s
}

/// The background of code blocks: the theme's background colour, unless it
/// is missing or white, in which case light grey `F0F0F0`.
pub open spec fn code_background(bg: Option<(u8, u8, u8)>) -> Seq<char> {
    match bg {
        Some((r, g, b)) => if color_hex(r, g, b) != "FFFFFF"@ { color_hex(r, g, b) } else { "F0F0F0"@ },
        None => "F0F0F0"@,
    }
}

/// The background of code blocks (see `code_background`).
pub fn background_fill(bg: Option<(u8, u8, u8)>) -> (s: String)
    ensures
        s@ == code_background(bg),
{
    match bg {
        Some((r, g, b)) => {
            let hex = color_to_hex(r, g, b);
            let white = crate::text::to_string("FFFFFF");
            if hex != white {
                hex
            } else {
                crate::text::to_string("F0F0F0")
            }
        },
        None => crate::text::to_string("F0F0F0"),
    }
}

/// The look of a highlighted piece of code (colour, font style bits,
/// text): its foreground colour, bold for bit 1, underlined for bit 2,
/// italic for bit 4.
pub open spec fn piece_style(p: (u8, u8, u8, u8, Seq<char>)) -> CodeStyleV {
    CodeStyleV { color: Some(color_hex(p.0, p.1, p.2)), bold: p.3 & 1 == 1, italic: p.3 & 4 == 4, underline: p.3 & 2 == 2 }
}

/// A highlighted line as runs of text and look.
pub open spec fn styled_line(ps: Seq<(u8, u8, u8, u8, Seq<char>)>) -> Seq<(Seq<char>, CodeStyleV)> {
    Seq::new(ps.len(), |j: int| (ps[j].4, piece_style(ps[j])))
}

/// Highlighted lines as runs of text and look.
pub open spec fn styled_lines(ps: Seq<Seq<(u8, u8, u8, u8, Seq<char>)>>) -> Seq<Seq<(Seq<char>, CodeStyleV)>> {
    Seq::new(ps.len(), |i: int| styled_line(ps[i]))
}

/// A highlighted piece of code as a run (see `piece_style`).
pub fn code_run_from(r: u8, g: u8, b: u8, font: u8, text: String) -> (run: CodeRun)
    ensures
        run.text@ == text@,
        run.style@ == piece_style((r, g, b, font, text@)),
{
    CodeRun {
        text,
        style: CodeRunStyle {
            color: Some(color_to_hex(r, g, b)),
            bold: font & 1 == 1,
            italic: font & 4 == 4,
            underline: font & 2 == 2,
        },
    }
}

/// The token that names a code block's language: the info string up to its
/// first comma or space, trimmed.
pub open spec fn language_token(lang: Seq<char>) -> Seq<char> {
    trim(first_piece(lang))
}

/// Whether `c` ends the language token.
pub open spec fn is_token_end(c: char) -> bool {
    c == ',' || c == ' '
}

/// `s` up to its first `,` or space.
pub open spec fn first_piece(s: Seq<char>) -> Seq<char>
    decreases s.len(),
{
    if s.len() == 0 {
        s
    } else if is_token_end(s[0]) {
        seq![]
    } else {
        seq![s[0]] + first_piece(s.subrange(1, s.len() as int))
    }
}

/// The language token of `lang` (see `language_token`).
pub fn language_of(lang: &str) -> (r: String)
    ensures
        r@ == language_token(lang@),
{
    let s = chars_of(lang);
    let mut i: usize = 0;
    assert(s@.subrange(0, s@.len() as int) =~= s@);
    assert(s@.take(0) =~= Seq::<char>::empty());
    while i < s.len() && !(s[i] == ',' || s[i] == ' ')
        invariant
            i <= s.len(),
            s@ == lang@,
            first_piece(s@) == s@.take(i as int) + first_piece(s@.subrange(i as int, s@.len() as int)),
        decreases s.len() - i,
    {
        let ghost rest = s@.subrange(i as int, s@.len() as int);
        assert(rest.subrange(1, rest.len() as int) =~= s@.subrange(i + 1, s@.len() as int));
        assert(s@.take(i + 1) =~= s@.take(i as int) + seq![s@[i as int]]);
        i += 1;
    }
    let first = crate::text::slice_to_vec(&s, 0, i);
    assert(first_piece(s@.subrange(i as int, s@.len() as int)) =~= Seq::<char>::empty());
    assert(first@ =~= first_piece(s@));
    string_of(&trim_chars(&first))
}

/// The concatenation of a line's run texts.
pub open spec fn runs_text(line: Seq<(Seq<char>, CodeStyleV)>) -> Seq<char>
    decreases line.len(),
{
    if line.len() == 0 { seq![] } else { runs_text(line.drop_last()) + line.last().0 }
}

/// What holds of any highlighting of `code`: one line of runs per line of
/// the block, whose texts make up that line.
pub open spec fn covers_lines(code: Seq<char>, lines: Seq<Seq<(Seq<char>, CodeStyleV)>>) -> bool {
    let texts = code_line_texts(code);
    &&& lines.len() == texts.len()
    &&& forall|i: int| 0 <= i < lines.len() ==> runs_text(#[trigger] lines[i]) == texts[i]
}

/// The theme code is highlighted with: the one `code_theme` names when
/// `syntect` bundles it, else `InspiredGitHub`.
pub open spec fn chosen_theme(code_theme: Seq<char>) -> Seq<char> {
    if bundled_theme_names().contains(code_theme) { code_theme } else { "InspiredGitHub"@ }
}

/// The lines of a code block in language `lang` as runs of text and look,
/// or the highlighter's error: plain when highlighting is off, when the
/// language token is empty or names no syntax; else the pieces `syntect`
/// gives each line with the theme `theme`.
pub open spec fn code_block_lines(
    enabled: bool,
    theme: Seq<char>,
    lang: Seq<char>,
    code: Seq<char>,
) -> Result<Seq<Seq<(Seq<char>, CodeStyleV)>>, Seq<char>> {
    let token = language_token(lang);
    if !enabled || token.len() == 0 {
        Ok(plain_lines_v(code))
    } else {
        match highlighted_lines(theme, token, code_line_texts(code)) {
            None => Ok(plain_lines_v(code)),
            Some(Ok(ps)) => Ok(styled_lines(ps)),
            Some(Err(m)) => Err(m),
        }
    }
}

/// Highlights code blocks for the DOCX output.
pub struct CodeHighlighter {
    pub enabled: bool,
    pub highlighting: Highlighting,
    /// The fill of code paragraphs, as six hex digits.
    pub background: String,
}

impl CodeHighlighter {
    /// The name of the theme it highlights with.
    pub open spec fn theme_name(&self) -> Seq<char> {
        self.highlighting.theme_name()
    }

    /// The default syntaxes and the theme `code_theme` names, else
    /// `InspiredGitHub`; code paragraphs are filled with the theme's
    /// background; highlighting is on when the settings ask for it.
    pub fn new(cfg: &DocxConfig) -> (r: CodeHighlighter)
        ensures
            r.enabled == cfg.code_highlight,
            r.theme_name() == chosen_theme(cfg.code_theme@),
            r.background@ == code_background(bundled_theme_background(chosen_theme(cfg.code_theme@))),
    {
        let highlighting = match load_highlighting(cfg.code_theme.as_str()) {
            Some(h) => h,
            None => {
                let fallback = load_highlighting("InspiredGitHub");
                proof {
                    reveal_strlit("InspiredGitHub");
                    assert(bundled_theme_names().contains("InspiredGitHub"@));
                }
                fallback.unwrap()
            },
        };
        let bg = theme_background(&highlighting);
        let background = background_fill(bg);
        CodeHighlighter { enabled: cfg.code_highlight, highlighting, background }
    }

    /// The runs of each line of a code block in language `lang` (see
    /// `code_block_lines`); an error of the highlighter is handed back.
    pub fn lines(&self, lang: &str, code: &str) -> (r: Result<Vec<Vec<CodeRun>>, String>)
        ensures
            r matches Ok(v) ==> covers_lines(code@, code_lines_view(v@)),
            match r {
                Ok(v) => code_block_lines(self.enabled, self.theme_name(), lang@, code@) == Ok::<_, Seq<char>>(code_lines_view(v@)),
                Err(e) => code_block_lines(self.enabled, self.theme_name(), lang@, code@) == Err::<Seq<Seq<(Seq<char>, CodeStyleV)>>, _>(e@),
            },
    {
        let token = language_of(lang);
        if !self.enabled || token.as_str().is_empty() {
            let p = plain_code_lines(code);
            proof { lemma_plain_covers(code@); }
            return Ok(p);
        }
        let texts = code_lines(code);
        let blocks = match highlight_block(&self.highlighting, token.as_str(), &texts) {
            None => {
                let p = plain_code_lines(code);
                proof { lemma_plain_covers(code@); }
                return Ok(p);
            },
            Some(Err(e)) => return Err(e),
            Some(Ok(v)) => v,
        };
        let ghost ps = Seq::new(blocks.len() as nat, |k: int| pieces_view(blocks@[k]@));
        assert(highlighted_lines(self.theme_name(), language_token(lang@), code_line_texts(code@)) == Some(Ok::<_, Seq<char>>(ps)));
        let mut out: Vec<Vec<CodeRun>> = Vec::new();
        let mut i: usize = 0;
        while i < blocks.len()
            invariant
                i <= blocks.len(),
                ps == Seq::new(blocks.len() as nat, |k: int| pieces_view(blocks@[k]@)),
                code_lines_view(out@) =~= styled_lines(ps).take(i as int),
            decreases blocks.len() - i,
        {
            let pieces = &blocks[i];
            let mut line: Vec<CodeRun> = Vec::new();
            let mut j: usize = 0;
            while j < pieces.len()
                invariant
                    j <= pieces.len(),
                    code_runs_view(line@) =~= styled_line(pieces_view(pieces@)).take(j as int),
                decreases pieces.len() - j,
            {
                let piece = &pieces[j];
                let run = code_run_from(piece.0, piece.1, piece.2, piece.3, piece.4.clone());
                let ghost before = line@;
                line.push(run);
                assert(code_runs_view(line@) =~= code_runs_view(before).push((run.text@, run.style@)));
                j += 1;
            }
            assert(code_runs_view(line@) =~= styled_line(pieces_view(pieces@)));
            assert(ps[i as int] == pieces_view(blocks@[i as int]@));
            assert(styled_lines(ps).take(i + 1) =~= styled_lines(ps).take(i as int).push(styled_line(ps[i as int])));
            let ghost before = out@;
            let ghost lv = line@;
            out.push(line);
            assert(code_lines_view(out@) =~= code_lines_view(before).push(code_runs_view(lv)));
            i += 1;
        }
        assert(code_lines_view(out@) =~= styled_lines(ps));
        proof {
            assert forall|k: int| 0 <= k < ps.len() implies runs_text(#[trigger] styled_lines(ps)[k]) == code_line_texts(code@)[k] by {
                lemma_styled_text(ps[k]);
                assert(pieces_text(pieces_view(blocks@[k]@)) == texts@[k]@);
            }
        }
        Ok(out)
    }
}

/// The texts of a highlighted line's runs are its pieces' texts.
proof fn lemma_styled_text(ps: Seq<(u8, u8, u8, u8, Seq<char>)>)
    ensures
        runs_text(styled_line(ps)) == pieces_text(ps),
    decreases ps.len(),
{
    if ps.len() > 0 {
        assert(styled_line(ps).drop_last() =~= styled_line(ps.drop_last()));
        lemma_styled_text(ps.drop_last());
    }
}

/// Plain lines cover the code block.
pub proof fn lemma_plain_covers(code: Seq<char>)
    ensures
        covers_lines(code, plain_lines_v(code)),
{
    let p = plain_lines_v(code);
    assert forall|i: int| 0 <= i < p.len() implies runs_text(#[trigger] p[i]) == code_line_texts(code)[i] by {
        let l = p[i];
        assert(l.drop_last() =~= seq![]);
        assert(runs_text(l.drop_last()) == Seq::<char>::empty());
    }
}

} // verus!
