//! The runs and paragraphs the DOCX writer builds: text and code runs with
//! their formatting, headings, the cover title, table of contents entries,
//! page breaks, and the properties of body, list, quote and code paragraphs.

use vstd::prelude::*;
use crate::docx_model::{
    props_view, FieldCharKind, Indentation, Paragraph, ParagraphItem, ParagraphItemV, ParagraphProps,
    ParagraphPropsV, ParagraphV, Run, RunItem, RunItemV, RunProp, RunPropV, RunV,
};
use crate::docx_style::{DocxStyles, ParagraphKind};
use crate::heading_number::clamp;
use crate::text::{chars_of, find_str, is_whitespace, is_ws, seq_has_char, to_string, find_from, lemma_find_from};

verus! {

/// How a run of body text is formatted.
#[derive(Clone, Copy, Debug)]
pub struct RunStyle {
    pub bold: bool,
    pub italic: bool,
    pub strike: bool,
    pub code: bool,
    pub hyperlink: bool,
}

impl RunStyle {
    /// No formatting.
    pub fn plain() -> (r: RunStyle)
        ensures
            !r.bold && !r.italic && !r.strike && !r.code && !r.hyperlink,
    {
        RunStyle { bold: false, italic: false, strike: false, code: false, hyperlink: false }
    }
}

/// Whether text must keep its spaces: it starts or ends with whitespace,
/// or holds two spaces in a row.
pub open spec fn needs_preserve(s: Seq<char>) -> bool {
    (s.len() > 0 && (is_ws(s[0]) || is_ws(s.last()))) || find_from(s, "  "@, 0) is Some
}

/// Whether `text` must keep its spaces (see `needs_preserve`).
pub fn text_needs_preserve(text: &str) -> (b: bool)
    ensures
        b == needs_preserve(text@),
{
    let s = chars_of(text);
    if s.len() > 0 && (is_whitespace(s[0]) || is_whitespace(s[s.len() - 1])) {
        return true;
    }
    find_str(&s, &chars_of("  ")).is_some()
}

/// The properties of a run of body text; none for plain text.
pub open spec fn run_props(style: RunStyle) -> Option<Seq<RunPropV>> {
    if !(style.bold || style.italic || style.strike || style.code || style.hyperlink) {
        None
    } else {
        Some(
            (if style.bold { seq![RunPropV::Bold] } else { seq![] })
                + (if style.italic { seq![RunPropV::Italic] } else { seq![] })
                + (if style.strike { seq![RunPropV::Strike] } else { seq![] })
                + (if style.hyperlink {
                seq![RunPropV::RunStyle("Hyperlink"@), RunPropV::Color("0563C1"@)]
            } else {
                seq![]
            }) + (if style.code { seq![RunPropV::CodeFonts, RunPropV::Shading("F6F8FA"@)] } else { seq![] }),
        )
    }
}

/// The properties of a run of body text (see `run_props`).
pub fn run_properties(style: RunStyle) -> (r: Option<Vec<RunProp>>)
    ensures
        match r {
            Some(v) => run_props(style) == Some(props_view(v@)),
            None => run_props(style) is None,
        },
{
    if !(style.bold || style.italic || style.strike || style.code || style.hyperlink) {
        return None;
    }
    let mut v: Vec<RunProp> = Vec::new();
    if style.bold {
        v.push(RunProp::Bold);
    }
    if style.italic {
        v.push(RunProp::Italic);
    }
    if style.strike {
        v.push(RunProp::Strike);
    }
    if style.hyperlink {
        v.push(RunProp::RunStyle(to_string("Hyperlink")));
        v.push(RunProp::Color(to_string("0563C1")));
    }
    if style.code {
        v.push(RunProp::CodeFonts);
        v.push(RunProp::Shading(to_string("F6F8FA")));
    }
    assert(props_view(v@) =~= run_props(style)->0);
    Some(v)
}


/// A run of body text.
pub open spec fn text_run_v(text: Seq<char>, style: RunStyle) -> RunV {
    RunV { props: run_props(style), item: RunItemV::Text(text, needs_preserve(text)) }
}

/// A run of body text (see `text_run_v`).
pub fn text_run(text: &str, style: RunStyle) -> (r: Run)
    ensures
        r@ == text_run_v(text@, style),
{
    let props = run_properties(style);
    let preserve = text_needs_preserve(text);
    Run { props, item: RunItem::Text(to_string(text), preserve) }
}

/// A run holding a tab.
pub fn tab_run() -> (r: Run)
    ensures
        r@ == (RunV { props: None, item: RunItemV::Tab }),
{
    Run { props: None, item: RunItem::Tab }
}

/// A run holding a field character.
pub fn field_char_run(kind: FieldCharKind, dirty: bool) -> (r: Run)
    ensures
        r@ == (RunV { props: None, item: RunItemV::FieldChar(kind, dirty) }),
{
    Run { props: None, item: RunItem::FieldChar(kind, dirty) }
}

/// A run holding a field instruction.
pub fn field_code_run(instruction: &str) -> (r: Run)
    ensures
        r@ == (RunV { props: None, item: RunItemV::FieldCode(instruction@) }),
{
    Run { props: None, item: RunItem::FieldCode(to_string(instruction)) }
}

/// A paragraph holding only a page break.
pub open spec fn page_break_v() -> ParagraphV {
    ParagraphV { props: None, items: seq![ParagraphItemV::Run(RunV { props: None, item: RunItemV::PageBreak })] }
}

/// A paragraph holding only a page break.
pub fn page_break_paragraph() -> (r: Paragraph)
    ensures
        r@ == page_break_v(),
{
    let p = Paragraph { props: None, items: vec![ParagraphItem::Run(Run { props: None, item: RunItem::PageBreak })] };
    assert(p@.items =~= page_break_v().items);
    p
}

/// Paragraph properties with only a style.
pub open spec fn styled(style: Seq<char>) -> ParagraphPropsV {
    ParagraphPropsV {
        style: Some(style),
        indentation: None,
        numbering: None,
        shading: None,
        justification: None,
        spacing: None,
        dot_tab: None,
    }
}

/// Paragraph properties with only a style.
pub fn paragraph_properties(style: &str) -> (r: ParagraphProps)
    ensures
        r@ == styled(style@),
{
    ParagraphProps {
        style: Some(to_string(style)),
        indentation: None,
        numbering: None,
        shading: None,
        justification: None,
        spacing: None,
        dot_tab: None,
    }
}

/// The properties of a body paragraph: its style; a left indent of 420
/// twips per list and quote level; the list numbering (level capped at 8)
/// when it is a list item; code shading for code.
pub open spec fn block_props(
    style: Option<Seq<char>>,
    kind: ParagraphKind,
    quote_depth: nat,
    list_depth: Option<nat>,
    numbering_id: Option<i32>,
) -> ParagraphPropsV {
    let indent_depth = (match list_depth { Some(d) => d, None => 0 }) + quote_depth;
    ParagraphPropsV {
        style: style,
        indentation: if indent_depth > 0 {
            Some(Indentation { left: Some((indent_depth * 420) as i64), right: None })
        } else {
            None
        },
        numbering: match (list_depth, numbering_id) {
            (Some(d), Some(n)) => Some((clamp(d - 1, 0, 8) as i32, n)),
            _ => None,
        },
        shading: if kind == ParagraphKind::Code { Some("F6F8FA"@) } else { None },
        justification: None,
        spacing: None,
        dot_tab: None,
    }
}

/// The properties of a body paragraph (see `block_props`).
pub fn block_properties(
    style: Option<&str>,
    kind: ParagraphKind,
    quote_depth: usize,
    list_depth: Option<usize>,
    numbering_id: Option<i32>,
) -> (r: ParagraphProps)
    requires
        ((match list_depth { Some(d) => d as int, None => 0 }) + quote_depth) * 420 <= usize::MAX,
    ensures
        r@ == block_props(
            match style { Some(s) => Some(s@), None => None },
            kind,
            quote_depth as nat,
            match list_depth { Some(d) => Some(d as nat), None => None },
            numbering_id,
        ),
{
    let mut props = match style {
        Some(s) => paragraph_properties(s),
        None => ParagraphProps {
            style: None,
            indentation: None,
            numbering: None,
            shading: None,
            justification: None,
            spacing: None,
            dot_tab: None,
        },
    };
    let ld = match list_depth { Some(d) => d, None => 0 };
    let indent_depth = ld + quote_depth;
    if indent_depth > 0 {
        props.indentation = Some(Indentation { left: Some((indent_depth * 420) as i64), right: None });
    }
    match (list_depth, numbering_id) {
        (Some(depth), Some(id)) => {
            let d = if depth > 0 { depth - 1 } else { 0 };
            let level = if d > 8 { 8 } else { d };
            props.numbering = Some((level as i32, id));
        },
        _ => {},
    }
    match kind {
        ParagraphKind::Code => { props.shading = Some(to_string("F6F8FA")); },
        _ => {},
    }
    props
}


/// How a highlighted piece of code looks.
#[derive(Clone, Debug)]
pub struct CodeRunStyle {
    /// Text colour, as six hex digits.
    pub color: Option<String>,
    pub bold: bool,
    pub italic: bool,
    pub underline: bool,
}

/// How a piece of code looks, as plain values: its colour's six hex
/// digits and its emphasis.
pub struct CodeStyleV {
    pub color: Option<Seq<char>>,
    pub bold: bool,
    pub italic: bool,
    pub underline: bool,
}

/// No colour and no emphasis.
pub open spec fn plain_code_style() -> CodeStyleV {
    CodeStyleV { color: None, bold: false, italic: false, underline: false }
}

impl View for CodeRunStyle {
    type V = CodeStyleV;

    open spec fn view(&self) -> CodeStyleV {
        CodeStyleV {
            color: match self.color {
                Some(c) => Some(c@),
                None => None,
            },
            bold: self.bold,
            italic: self.italic,
            underline: self.underline,
        }
    }
}

impl CodeRunStyle {
    /// No colour and no emphasis.
    pub fn plain() -> (r: CodeRunStyle)
        ensures
            r@ == plain_code_style(),
    {
        CodeRunStyle { color: None, bold: false, italic: false, underline: false }
    }
}

/// A piece of a code line with its look.
#[derive(Clone, Debug)]
pub struct CodeRun {
    pub text: String,
    pub style: CodeRunStyle,
}

/// The properties of a run of code.
pub open spec fn code_props(style: CodeStyleV) -> Seq<RunPropV> {
    (if style.bold { seq![RunPropV::Bold] } else { seq![] })
        + (if style.italic { seq![RunPropV::Italic] } else { seq![] })
        + (if style.underline { seq![RunPropV::Underline] } else { seq![] })
        + (match style.color { Some(c) => seq![RunPropV::Color(c)], None => seq![] })
        + seq![RunPropV::CodeFonts]
}

/// The properties of a run of code (see `code_props`).
pub fn code_run_properties(style: &CodeRunStyle) -> (r: Vec<RunProp>)
    ensures
        props_view(r@) == code_props(style@),
{
    let mut v: Vec<RunProp> = Vec::new();
    if style.bold {
        v.push(RunProp::Bold);
    }
    if style.italic {
        v.push(RunProp::Italic);
    }
    if style.underline {
        v.push(RunProp::Underline);
    }
    match &style.color {
        Some(c) => v.push(RunProp::Color(c.clone())),
        None => {},
    }
    v.push(RunProp::CodeFonts);
    assert(props_view(v@) =~= code_props(style@));
    v
}

/// A run of code, spaces kept.
pub open spec fn code_text_run_v(text: Seq<char>, style: CodeStyleV) -> RunV {
    RunV { props: Some(code_props(style)), item: RunItemV::Text(text, true) }
}

/// A run of code (see `code_text_run_v`).
pub fn code_text_run(text: &str, style: &CodeRunStyle) -> (r: Run)
    ensures
        r@ == code_text_run_v(text@, style@),
{
    Run { props: Some(code_run_properties(style)), item: RunItem::Text(to_string(text), true) }
}

/// A code line's runs as text and style.
pub open spec fn code_runs_view(line: Seq<CodeRun>) -> Seq<(Seq<char>, CodeStyleV)> {
    Seq::new(line.len(), |i: int| (line[i].text@, line[i].style@))
}

/// The runs of a code line: one empty run for an empty line.
pub open spec fn code_line_items(line: Seq<(Seq<char>, CodeStyleV)>) -> Seq<ParagraphItemV> {
    if line.len() == 0 {
        seq![ParagraphItemV::Run(code_text_run_v(seq![], plain_code_style()))]
    } else {
        Seq::new(line.len(), |i: int| ParagraphItemV::Run(code_text_run_v(line[i].0, line[i].1)))
    }
}

/// A paragraph of one code line: the code style with the background fill,
/// indented 200 twips on both sides, single spaced, with 160 twips after
/// the last line.
pub open spec fn code_paragraph_v(line: Seq<(Seq<char>, CodeStyleV)>, background: Seq<char>, last: bool, code_style: Seq<char>) -> ParagraphV {
    ParagraphV {
        props: Some(ParagraphPropsV {
            shading: Some(background),
            indentation: Some(Indentation { left: Some(200), right: Some(200) }),
            spacing: Some(crate::docx_model::Spacing {
                before: Some(0),
                after: Some(if last { 160 } else { 0 }),
                line: Some(240),
                auto_rule: true,
            }),
            ..block_props(Some(code_style), ParagraphKind::Code, 0, None, None)
        }),
        items: code_line_items(line),
    }
}

/// A paragraph of one code line (see `code_paragraph_v`).
pub fn code_paragraph(line: &Vec<CodeRun>, background: &str, last: bool, styles: &DocxStyles) -> (r: Paragraph)
    ensures
        r@ == code_paragraph_v(code_runs_view(line@), background@, last, styles.code@),
{
    let mut items: Vec<ParagraphItem> = Vec::new();
    if line.len() == 0 {
        let plain = CodeRunStyle::plain();
        items.push(ParagraphItem::Run(code_text_run("", &plain)));
        proof { reveal_strlit(""); }
        assert(""@ =~= Seq::<char>::empty());
        assert(plain@ == plain_code_style());
        assert(crate::docx_model::items_view(items@) =~= code_line_items(code_runs_view(line@)));
    } else {
        let mut i: usize = 0;
        while i < line.len()
            invariant
                i <= line.len(),
                crate::docx_model::items_view(items@) =~= Seq::new(i as nat, |k: int| ParagraphItemV::Run(code_text_run_v(line@[k].text@, line@[k].style@))),
            decreases line.len() - i,
        {
            let r = code_text_run(line[i].text.as_str(), &line[i].style);
            let ghost before = items@;
            items.push(ParagraphItem::Run(r));
            assert(crate::docx_model::items_view(items@) =~= crate::docx_model::items_view(before).push(ParagraphItemV::Run(r@)));
            i += 1;
        }
        assert(crate::docx_model::items_view(items@) =~= code_line_items(code_runs_view(line@)));
    }
    let mut props = block_properties(Some(styles.code.as_str()), ParagraphKind::Code, 0, None, None);
    props.shading = Some(to_string(background));
    props.indentation = Some(Indentation { left: Some(200), right: Some(200) });
    props.spacing = Some(crate::docx_model::Spacing {
        before: Some(0),
        after: Some(if last { 160 } else { 0 }),
        line: Some(240),
        auto_rule: true,
    });
    let p = Paragraph { props: Some(props), items };
    assert(p@.items =~= code_line_items(code_runs_view(line@)));
    p
}

/// A bookmark: its id and name.
#[derive(Clone, Debug)]
pub struct BookmarkRef {
    pub id: String,
    pub name: String,
}

/// A run of bold text.
pub open spec fn bold_run_v(text: Seq<char>) -> RunV {
    text_run_v(text, RunStyle { bold: true, italic: false, strike: false, code: false, hyperlink: false })
}

/// A heading paragraph holding `text` in bold, inside the bookmark if
/// there is one.
pub open spec fn heading_with_bookmark_v(style: Seq<char>, text: Seq<char>, bookmark: Option<(Seq<char>, Seq<char>)>) -> ParagraphV {
    ParagraphV {
        props: Some(styled(style)),
        items: match bookmark {
            Some((id, name)) => seq![
                ParagraphItemV::BookmarkStart(name, id),
                ParagraphItemV::Run(bold_run_v(text)),
                ParagraphItemV::BookmarkEnd(id),
            ],
            None => seq![ParagraphItemV::Run(bold_run_v(text))],
        },
    }
}

pub open spec fn bookmark_view(b: Option<BookmarkRef>) -> Option<(Seq<char>, Seq<char>)> {
    match b {
        Some(r) => Some((r.id@, r.name@)),
        None => None,
    }
}

/// A heading paragraph of `level` (see `heading_with_bookmark_v`).
pub fn heading_paragraph_with_bookmark(level: usize, text: &str, bookmark: Option<BookmarkRef>, styles: &DocxStyles) -> (r: Paragraph)
    requires
        styles.wf(),
    ensures
        r@ == heading_with_bookmark_v(
            styles.headings@[clamp(level as int, 1, 9) - 1]@,
            text@,
            bookmark_view(bookmark),
        ),
{
    let bold = RunStyle { bold: true, italic: false, strike: false, code: false, hyperlink: false };
    let mut items: Vec<ParagraphItem> = Vec::new();
    match bookmark {
        Some(b) => {
            let id2 = b.id.clone();
            items.push(ParagraphItem::BookmarkStart(b.name, b.id));
            items.push(ParagraphItem::Run(text_run(text, bold)));
            items.push(ParagraphItem::BookmarkEnd(id2));
        },
        None => {
            items.push(ParagraphItem::Run(text_run(text, bold)));
        },
    }
    let p = Paragraph { props: Some(paragraph_properties(styles.heading(level))), items };
    assert(p@.items =~= heading_with_bookmark_v(styles.headings@[clamp(level as int, 1, 9) - 1]@, text@, bookmark_view(bookmark)).items);
    p
}

/// The cover title: title style, centred, 3600 twips before, in bold at 34
/// points.
pub open spec fn cover_title_v(text: Seq<char>, title_style: Seq<char>) -> ParagraphV {
    ParagraphV {
        props: Some(ParagraphPropsV {
            justification: Some(crate::docx_model::Justify::Center),
            spacing: Some(crate::docx_model::Spacing { before: Some(3600), after: Some(0), line: None, auto_rule: false }),
            ..styled(title_style)
        }),
        items: seq![ParagraphItemV::Run(RunV {
            props: Some(seq![RunPropV::Bold, RunPropV::FontSize("68"@), RunPropV::FontSizeComplexScript("68"@)]),
            item: RunItemV::Text(text, false),
        })],
    }
}

/// The cover title paragraph (see `cover_title_v`).
pub fn cover_title_paragraph(text: &str, styles: &DocxStyles) -> (r: Paragraph)
    ensures
        r@ == cover_title_v(text@, styles.title@),
{
    let mut props = paragraph_properties(styles.title.as_str());
    props.justification = Some(crate::docx_model::Justify::Center);
    props.spacing = Some(crate::docx_model::Spacing { before: Some(3600), after: Some(0), line: None, auto_rule: false });
    let run = Run {
        props: Some(vec![RunProp::Bold, RunProp::FontSize(to_string("68")), RunProp::FontSizeComplexScript(to_string("68"))]),
        item: RunItem::Text(to_string(text), false),
    };
    let p = Paragraph { props: Some(props), items: vec![ParagraphItem::Run(run)] };
    assert(p@.items =~= cover_title_v(text@, styles.title@).items) by {
        assert(props_view(run.props->0@) =~= seq![RunPropV::Bold, RunPropV::FontSize("68"@), RunPropV::FontSizeComplexScript("68"@)]);
    }
    p
}

/// The heading of the table of contents: its style and the text in bold.
pub open spec fn toc_heading_v(text: Seq<char>, style: Seq<char>) -> ParagraphV {
    ParagraphV { props: Some(styled(style)), items: seq![ParagraphItemV::Run(bold_run_v(text))] }
}

/// The heading of the table of contents (see `toc_heading_v`).
pub fn toc_heading_paragraph(text: &str, styles: &DocxStyles) -> (r: Paragraph)
    ensures
        r@ == toc_heading_v(text@, styles.toc_heading@),
{
    let bold = RunStyle { bold: true, italic: false, strike: false, code: false, hyperlink: false };
    let p = Paragraph {
        props: Some(paragraph_properties(styles.toc_heading.as_str())),
        items: vec![ParagraphItem::Run(text_run(text, bold))],
    };
    assert(p@.items =~= toc_heading_v(text@, styles.toc_heading@).items);
    p
}

/// A paragraph of one run of text without properties.
pub fn paragraph_from_text(text: &str, style: RunStyle) -> (r: Paragraph)
    ensures
        r@ == (ParagraphV { props: None, items: seq![ParagraphItemV::Run(text_run_v(text@, style))] }),
{
    let p = Paragraph { props: None, items: vec![ParagraphItem::Run(text_run(text, style))] };
    assert(p@.items =~= seq![ParagraphItemV::Run(text_run_v(text@, style))]);
    p
}

/// The properties of a table of contents entry: the entry style of its
/// level, indented 420 twips per level below the first, with a dotted
/// right tab at 9000 twips.
pub open spec fn toc_entry_props(level: nat, style: Seq<char>) -> ParagraphPropsV {
    ParagraphPropsV {
        indentation: Some(Indentation { left: Some(((if level > 0 { level - 1 } else { 0 }) * 420) as i64), right: None }),
        dot_tab: Some(9000),
        ..styled(style)
    }
}

/// The properties of a table of contents entry (see `toc_entry_props`).
pub fn toc_entry_properties(level: usize, styles: &DocxStyles) -> (r: ParagraphProps)
    requires
        styles.wf(),
        level <= 9,
    ensures
        r@ == toc_entry_props(level as nat, styles.toc_entries@[clamp(level as int, 1, 9) - 1]@),
{
    let mut props = paragraph_properties(styles.toc_entry(level));
    let below = if level > 0 { level - 1 } else { 0 };
    props.indentation = Some(Indentation { left: Some((below * 420) as i64), right: None });
    props.dot_tab = Some(9000);
    props
}

/// A hyperlink around one run.
pub fn hyperlink(target: &crate::docx_model::LinkTarget, run: Run) -> (r: ParagraphItem)
    ensures
        r@ == ParagraphItemV::Hyperlink(target@, seq![run@]),
{
    let t = match target {
        crate::docx_model::LinkTarget::External(id) => crate::docx_model::LinkTarget::External(id.clone()),
        crate::docx_model::LinkTarget::Anchor(a) => crate::docx_model::LinkTarget::Anchor(a.clone()),
    };
    let runs = vec![run];
    assert(crate::docx_model::runs_view(runs@) =~= seq![runs@[0]@]);
    ParagraphItem::Hyperlink(t, runs)
}

} // verus!
