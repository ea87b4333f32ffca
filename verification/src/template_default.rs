//! The default renderkit Word template: its styles (body, title, author,
//! code, list, quote and image paragraphs, headings and table of contents
//! levels, inline code and hyperlink runs, the table style) and its body.

use vstd::prelude::*;
use crate::docx_model::{opt_seq, Justify};
use crate::template_styles::FontSet;
use crate::text::{decimal, push_decimal, to_string};

verus! {

/// A paragraph style of the default template: spacing, line height and
/// indents in twips, font size in half points.
#[derive(Clone, Debug)]
pub struct ParagraphStyleSpec {
    pub id: String,
    pub name: String,
    pub based_on: Option<String>,
    pub next: Option<String>,
    pub size: String,
    pub bold: bool,
    pub justification: Option<Justify>,
    pub spacing_before: Option<i64>,
    pub spacing_after: Option<i64>,
    pub line: Option<i64>,
    pub first_line: Option<i64>,
    pub left: Option<i64>,
    pub outline_level: Option<i32>,
    pub keep_next: bool,
    pub shading: Option<String>,
}

pub struct ParagraphStyleV {
    pub id: Seq<char>,
    pub name: Seq<char>,
    pub based_on: Option<Seq<char>>,
    pub next: Option<Seq<char>>,
    pub size: Seq<char>,
    pub bold: bool,
    pub justification: Option<Justify>,
    pub spacing_before: Option<i64>,
    pub spacing_after: Option<i64>,
    pub line: Option<i64>,
    pub first_line: Option<i64>,
    pub left: Option<i64>,
    pub outline_level: Option<i32>,
    pub keep_next: bool,
    pub shading: Option<Seq<char>>,
}

impl View for ParagraphStyleSpec {
    type V = ParagraphStyleV;

    open spec fn view(&self) -> ParagraphStyleV {
        ParagraphStyleV {
            id: self.id@,
            name: self.name@,
            based_on: opt_seq(self.based_on),
            next: opt_seq(self.next),
            size: self.size@,
            bold: self.bold,
            justification: self.justification,
            spacing_before: self.spacing_before,
            spacing_after: self.spacing_after,
            line: self.line,
            first_line: self.first_line,
            left: self.left,
            outline_level: self.outline_level,
            keep_next: self.keep_next,
            shading: opt_seq(self.shading),
        }
    }
}

/// A character style of the default template.
#[derive(Clone, Debug)]
pub struct CharacterStyleSpec {
    pub id: String,
    pub name: String,
    pub fonts: FontSet,
    pub size: String,
    pub bold: bool,
    pub shading: Option<String>,
    pub color: Option<String>,
    pub underline: bool,
}

pub struct CharacterStyleV {
    pub id: Seq<char>,
    pub name: Seq<char>,
    pub fonts: FontSet,
    pub size: Seq<char>,
    pub bold: bool,
    pub shading: Option<Seq<char>>,
    pub color: Option<Seq<char>>,
    pub underline: bool,
}

impl View for CharacterStyleSpec {
    type V = CharacterStyleV;

    open spec fn view(&self) -> CharacterStyleV {
        CharacterStyleV {
            id: self.id@,
            name: self.name@,
            fonts: self.fonts,
            size: self.size@,
            bold: self.bold,
            shading: opt_seq(self.shading),
            color: opt_seq(self.color),
            underline: self.underline,
        }
    }
}

/// A style of the default template.
#[derive(Clone, Debug)]
pub enum DefaultStyle {
    Paragraph(ParagraphStyleSpec),
    Character(CharacterStyleSpec),
    /// The table style: centred, single borders, cell margins of 80 twips
    /// above and below and 120 on the sides, and a bold, grey header row.
    Table,
}

pub enum DefaultStyleV {
    Paragraph(ParagraphStyleV),
    Character(CharacterStyleV),
    Table,
}

impl View for DefaultStyle {
    type V = DefaultStyleV;

    open spec fn view(&self) -> DefaultStyleV {
        match self {
            DefaultStyle::Paragraph(p) => DefaultStyleV::Paragraph(p@),
            DefaultStyle::Character(c) => DefaultStyleV::Character(c@),
            DefaultStyle::Table => DefaultStyleV::Table,
        }
    }
}

pub open spec fn styles_view(v: Seq<DefaultStyle>) -> Seq<DefaultStyleV> {
    Seq::new(v.len(), |i: int| v[i]@)
}

/// A paragraph style whose name is its id, based on `RenderkitBody` and
/// followed by it, not bold, without alignment, outline level, shading or
/// keeping with the next paragraph, unless set otherwise.
pub open spec fn body_based(id: Seq<char>) -> ParagraphStyleV {
    ParagraphStyleV {
        id,
        name: id,
        based_on: Some("RenderkitBody"@),
        next: Some("RenderkitBody"@),
        size: "22"@,
        bold: false,
        justification: None,
        spacing_before: Some(0),
        spacing_after: Some(0),
        line: None,
        first_line: None,
        left: None,
        outline_level: None,
        keep_next: false,
        shading: None,
    }
}

/// The heading style of `level`: bold at 16, 14, 12 and then 11 points,
/// 18 points before level 1 and 12 before the others, 6 after, kept with
/// the next paragraph, at outline level `level - 1`.
pub open spec fn heading_style_v(level: nat) -> ParagraphStyleV {
    ParagraphStyleV {
        size: if level == 1 { "32"@ } else if level == 2 { "28"@ } else if level == 3 { "24"@ } else { "22"@ },
        bold: true,
        spacing_before: Some(if level == 1 { 360 } else { 240 }),
        spacing_after: Some(120),
        first_line: Some(0),
        outline_level: Some((level - 1) as i32),
        keep_next: true,
        ..body_based("RenderkitHeading"@ + decimal(level))
    }
}

/// The table of contents style of `level`: 4 points after, indented 240
/// twips per level below the first, at most two.
pub open spec fn toc_style_v(level: nat) -> ParagraphStyleV {
    ParagraphStyleV {
        spacing_after: Some(80),
        first_line: Some(0),
        left: Some(((if level >= 3 { 2 } else if level >= 1 { level - 1 } else { 0 }) * 240) as i64),
        ..body_based("RenderkitToc"@ + decimal(level))
    }
}

fn numbered_id(prefix: &str, level: usize) -> (r: String)
    ensures
        r@ == prefix@ + decimal(level as nat),
{
    let mut s = to_string(prefix);
    push_decimal(&mut s, level as u64);
    s
}

fn body_based_style(id: String) -> (r: ParagraphStyleSpec)
    ensures
        r@ == body_based(id@),
{
    ParagraphStyleSpec {
        name: id.clone(),
        id,
        based_on: Some(to_string("RenderkitBody")),
        next: Some(to_string("RenderkitBody")),
        size: to_string("22"),
        bold: false,
        justification: None,
        spacing_before: Some(0),
        spacing_after: Some(0),
        line: None,
        first_line: None,
        left: None,
        outline_level: None,
        keep_next: false,
        shading: None,
    }
}

/// The heading style of `level` (see `heading_style_v`).
pub fn heading_style(level: usize) -> (r: ParagraphStyleSpec)
    requires
        1 <= level <= 9,
    ensures
        r@ == heading_style_v(level as nat),
{
    let mut s = body_based_style(numbered_id("RenderkitHeading", level));
    s.size = to_string(if level == 1 { "32" } else if level == 2 { "28" } else if level == 3 { "24" } else { "22" });
    s.bold = true;
    s.spacing_before = Some(if level == 1 { 360 } else { 240 });
    s.spacing_after = Some(120);
    s.first_line = Some(0);
    s.outline_level = Some((level - 1) as i32);
    s.keep_next = true;
    s
}

/// The table of contents style of `level` (see `toc_style_v`).
pub fn toc_style(level: usize) -> (r: ParagraphStyleSpec)
    requires
        1 <= level <= 9,
    ensures
        r@ == toc_style_v(level as nat),
{
    let mut s = body_based_style(numbered_id("RenderkitToc", level));
    let steps: i64 = if level >= 3 { 2 } else { (level - 1) as i64 };
    s.spacing_after = Some(80);
    s.first_line = Some(0);
    s.left = Some(steps * 240);
    s
}

/// The fixed styles of the default template, in order.
pub open spec fn fixed_styles_v() -> Seq<DefaultStyleV> {
    seq![
        DefaultStyleV::Paragraph(ParagraphStyleV {
            based_on: None,
            next: Some("RenderkitAuthor"@),
            size: "36"@,
            bold: true,
            justification: Some(Justify::Center),
            spacing_after: Some(240),
            ..body_based("RenderkitTitle"@)
        }),
        DefaultStyleV::Paragraph(ParagraphStyleV {
            justification: Some(Justify::Center),
            line: Some(264),
            first_line: Some(0),
            ..body_based("RenderkitAuthor"@)
        }),
        DefaultStyleV::Paragraph(ParagraphStyleV {
            based_on: None,
            spacing_after: Some(120),
            line: Some(264),
            ..body_based("RenderkitBody"@)
        }),
        DefaultStyleV::Paragraph(ParagraphStyleV {
            size: "28"@,
            bold: true,
            justification: Some(Justify::Center),
            spacing_after: Some(240),
            ..body_based("RenderkitTocHeading"@)
        }),
        DefaultStyleV::Paragraph(ParagraphStyleV {
            size: "20"@,
            spacing_before: Some(80),
            spacing_after: Some(80),
            line: Some(240),
            first_line: Some(0),
            left: Some(0),
            shading: Some("F5F5F5"@),
            ..body_based("RenderkitCode"@)
        }),
        DefaultStyleV::Character(CharacterStyleV {
            id: "RenderkitInlineCode"@,
            name: "RenderkitInlineCode"@,
            fonts: FontSet::Code,
            size: "20"@,
            bold: false,
            shading: Some("F5F5F5"@),
            color: None,
            underline: false,
        }),
        DefaultStyleV::Paragraph(ParagraphStyleV {
            justification: Some(Justify::Center),
            spacing_before: Some(80),
            spacing_after: Some(120),
            first_line: Some(0),
            left: Some(0),
            ..body_based("RenderkitImage"@)
        }),
        DefaultStyleV::Paragraph(ParagraphStyleV {
            next: Some("RenderkitList"@),
            spacing_after: Some(80),
            line: Some(264),
            first_line: Some(0),
            ..body_based("RenderkitList"@)
        }),
        DefaultStyleV::Paragraph(ParagraphStyleV {
            spacing_after: Some(120),
            line: Some(264),
            first_line: Some(0),
            left: Some(360),
            ..body_based("RenderkitQuote"@)
        }),
        DefaultStyleV::Table,
        DefaultStyleV::Character(CharacterStyleV {
            id: "RenderkitHyperlink"@,
            name: "RenderkitHyperlink"@,
            fonts: FontSet::Body,
            size: "22"@,
            bold: false,
            shading: None,
            color: Some("0563C1"@),
            underline: true,
        }),
    ]
}

/// All styles of the default template: the fixed ones, then a heading and
/// a table of contents style for each level from 1 to 9.
pub open spec fn default_styles_v() -> Seq<DefaultStyleV> {
    fixed_styles_v() + Seq::new(
        18,
        |i: int| if i % 2 == 0 {
            DefaultStyleV::Paragraph(heading_style_v((i / 2 + 1) as nat))
        } else {
            DefaultStyleV::Paragraph(toc_style_v((i / 2 + 1) as nat))
        },
    )
}

fn push_style(v: &mut Vec<DefaultStyle>, s: DefaultStyle)
    ensures
        styles_view(final(v)@) == styles_view(old(v)@).push(s@),
{
    v.push(s);
    assert(styles_view(v@) =~= styles_view(old(v)@).push(s@));
}

/// All styles of the default template (see `default_styles_v`).
pub fn default_styles() -> (r: Vec<DefaultStyle>)
    ensures
        styles_view(r@) == default_styles_v(),
{
    let mut v: Vec<DefaultStyle> = Vec::new();
    let mut title = body_based_style(to_string("RenderkitTitle"));
    title.based_on = None;
    title.next = Some(to_string("RenderkitAuthor"));
    title.size = to_string("36");
    title.bold = true;
    title.justification = Some(Justify::Center);
    title.spacing_after = Some(240);
    push_style(&mut v, DefaultStyle::Paragraph(title));
    let mut author = body_based_style(to_string("RenderkitAuthor"));
    author.justification = Some(Justify::Center);
    author.line = Some(264);
    author.first_line = Some(0);
    push_style(&mut v, DefaultStyle::Paragraph(author));
    let mut body = body_based_style(to_string("RenderkitBody"));
    body.based_on = None;
    body.spacing_after = Some(120);
    body.line = Some(264);
    push_style(&mut v, DefaultStyle::Paragraph(body));
    let mut toc_heading = body_based_style(to_string("RenderkitTocHeading"));
    toc_heading.size = to_string("28");
    toc_heading.bold = true;
    toc_heading.justification = Some(Justify::Center);
    toc_heading.spacing_after = Some(240);
    push_style(&mut v, DefaultStyle::Paragraph(toc_heading));
    let mut code = body_based_style(to_string("RenderkitCode"));
    code.size = to_string("20");
    code.spacing_before = Some(80);
    code.spacing_after = Some(80);
    code.line = Some(240);
    code.first_line = Some(0);
    code.left = Some(0);
    code.shading = Some(to_string("F5F5F5"));
    push_style(&mut v, DefaultStyle::Paragraph(code));
    push_style(&mut v, DefaultStyle::Character(CharacterStyleSpec {
        id: to_string("RenderkitInlineCode"),
        name: to_string("RenderkitInlineCode"),
        fonts: FontSet::Code,
        size: to_string("20"),
        bold: false,
        shading: Some(to_string("F5F5F5")),
        color: None,
        underline: false,
    }));
    let mut image = body_based_style(to_string("RenderkitImage"));
    image.justification = Some(Justify::Center);
    image.spacing_before = Some(80);
    image.spacing_after = Some(120);
    image.first_line = Some(0);
    image.left = Some(0);
    push_style(&mut v, DefaultStyle::Paragraph(image));
    let mut list = body_based_style(to_string("RenderkitList"));
    list.next = Some(to_string("RenderkitList"));
    list.spacing_after = Some(80);
    list.line = Some(264);
    list.first_line = Some(0);
    push_style(&mut v, DefaultStyle::Paragraph(list));
    let mut quote = body_based_style(to_string("RenderkitQuote"));
    quote.spacing_after = Some(120);
    quote.line = Some(264);
    quote.first_line = Some(0);
    quote.left = Some(360);
    push_style(&mut v, DefaultStyle::Paragraph(quote));
    push_style(&mut v, DefaultStyle::Table);
    push_style(&mut v, DefaultStyle::Character(CharacterStyleSpec {
        id: to_string("RenderkitHyperlink"),
        name: to_string("RenderkitHyperlink"),
        fonts: FontSet::Body,
        size: to_string("22"),
        bold: false,
        shading: None,
        color: Some(to_string("0563C1")),
        underline: true,
    }));
    assert(styles_view(v@) =~= fixed_styles_v());
    let mut level: usize = 1;
    while level <= 9
        invariant
            1 <= level <= 10,
            styles_view(v@) =~= default_styles_v().take(11 + 2 * (level - 1)),
        decreases 10 - level,
    {
        let ghost before = styles_view(v@);
        push_style(&mut v, DefaultStyle::Paragraph(heading_style(level)));
        push_style(&mut v, DefaultStyle::Paragraph(toc_style(level)));
        assert(default_styles_v().take(11 + 2 * level) =~= default_styles_v().take(11 + 2 * (level - 1))
            .push(DefaultStyleV::Paragraph(heading_style_v(level as nat)))
            .push(DefaultStyleV::Paragraph(toc_style_v(level as nat)))) by {
            let j = 2 * (level - 1) as int;
            assert(j % 2 == 0 && (j / 2 + 1) == level);
            assert((j + 1) % 2 == 1 && ((j + 1) / 2 + 1) == level);
        }
        level += 1;
    }
    assert(default_styles_v().take(29) =~= default_styles_v());
    v
}

/// The text that marks where the book's title goes.
pub const DEFAULT_TITLE_MARKER: &'static str = "MDBOOK_RENDERKIT_TITLE";
/// The text that marks where the authors go.
pub const DEFAULT_AUTHOR_MARKER: &'static str = "MDBOOK_RENDERKIT_AUTHOR";
/// The text that marks where the content goes.
pub const DEFAULT_CONTENT_MARKER: &'static str = "MDBOOK_RENDERKIT_CONTENT";

/// A paragraph of the default template's body.
#[derive(Clone, Debug)]
pub enum DefaultBlock {
    /// A paragraph of one text run in a style.
    Text { text: String, style: String },
    PageBreak,
    /// The table of contents field: a paragraph in `style` with a dotted
    /// tab at the right margin, holding the field `instruction` and the
    /// `placeholder` text shown until the field is updated.
    TocField { style: String, instruction: String, placeholder: String },
}

pub enum DefaultBlockV {
    Text { text: Seq<char>, style: Seq<char> },
    PageBreak,
    TocField { style: Seq<char>, instruction: Seq<char>, placeholder: Seq<char> },
}

impl View for DefaultBlock {
    type V = DefaultBlockV;

    open spec fn view(&self) -> DefaultBlockV {
        match self {
            DefaultBlock::Text { text, style } => DefaultBlockV::Text { text: text@, style: style@ },
            DefaultBlock::PageBreak => DefaultBlockV::PageBreak,
            DefaultBlock::TocField { style, instruction, placeholder } => DefaultBlockV::TocField {
                style: style@,
                instruction: instruction@,
                placeholder: placeholder@,
            },
        }
    }
}

pub open spec fn blocks_view(v: Seq<DefaultBlock>) -> Seq<DefaultBlockV> {
    Seq::new(v.len(), |i: int| v[i]@)
}

/// The default template's body: the title and author markers, a page
/// break, the table of contents (headings 1 to 3) under its heading, a
/// page break, and the content marker.
pub open spec fn default_body_v() -> Seq<DefaultBlockV> {
    seq![
        DefaultBlockV::Text { text: DEFAULT_TITLE_MARKER@, style: "RenderkitTitle"@ },
        DefaultBlockV::Text { text: DEFAULT_AUTHOR_MARKER@, style: "RenderkitAuthor"@ },
        DefaultBlockV::PageBreak,
        DefaultBlockV::Text { text: "Contents"@, style: "RenderkitTocHeading"@ },
        DefaultBlockV::TocField {
            style: "RenderkitToc1"@,
            instruction: " TOC \\o \"1-3\" \\h \\z \\u "@,
            placeholder: "Right-click to update field."@,
        },
        DefaultBlockV::PageBreak,
        DefaultBlockV::Text { text: DEFAULT_CONTENT_MARKER@, style: "RenderkitBody"@ },
    ]
}

fn text_block(text: &str, style: &str) -> (r: DefaultBlock)
    ensures
        r@ == (DefaultBlockV::Text { text: text@, style: style@ }),
{
    DefaultBlock::Text { text: to_string(text), style: to_string(style) }
}

/// The default template's body (see `default_body_v`).
pub fn default_body() -> (r: Vec<DefaultBlock>)
    ensures
        blocks_view(r@) == default_body_v(),
{
    let mut v: Vec<DefaultBlock> = Vec::new();
    v.push(text_block(DEFAULT_TITLE_MARKER, "RenderkitTitle"));
    v.push(text_block(DEFAULT_AUTHOR_MARKER, "RenderkitAuthor"));
    v.push(DefaultBlock::PageBreak);
    v.push(text_block("Contents", "RenderkitTocHeading"));
    v.push(DefaultBlock::TocField {
        style: to_string("RenderkitToc1"),
        instruction: to_string(" TOC \\o \"1-3\" \\h \\z \\u "),
        placeholder: to_string("Right-click to update field."),
    });
    v.push(DefaultBlock::PageBreak);
    v.push(text_block(DEFAULT_CONTENT_MARKER, "RenderkitBody"));
    assert(blocks_view(v@) =~= default_body_v());
    v
}

} // verus!
